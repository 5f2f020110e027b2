//! Picks the touchpad's event device out of a listing of input devices, one
//! device per line: the most recent line naming an event device is remembered,
//! and the first line that names a touchpad vendor settles the answer.
use vstd::prelude::*;

verus! {

/// The prefix of an event device path.
pub open spec fn device_prefix() -> Seq<char> {
    seq!['/', 'd', 'e', 'v', '/', 'i', 'n', 'p', 'u', 't', '/']
}

/// The label in front of an event device path on a listing line.
pub open spec fn event_marker() -> Seq<char> {
    seq!['E', 'v', 'e', 'n', 't', ':', ' '] + device_prefix()
}

/// Words that name touchpad hardware.
pub open spec fn keywords() -> Seq<Seq<char>> {
    seq![
        seq!['T', 'o', 'u', 'c', 'h', 'P', 'a', 'd'],
        seq!['S', 'y', 'n', 'a', 'p', 't', 'i', 'c', 's'],
        seq!['E', 'l', 'a', 'n', 't', 'e', 'c', 'h'],
        seq!['E', 'T', 'P', 'S'],
        seq!['A', 'L', 'P', 'S'],
    ]
}

/// Unicode white space, as `char::is_whitespace` decides it.
pub open spec fn is_space(c: char) -> bool {
    let v = c as u32;
    (0x09 <= v <= 0x0D) || v == 0x20 || v == 0x85 || v == 0xA0 || v == 0x1680 || (0x2000 <= v
        <= 0x200A) || v == 0x2028 || v == 0x2029 || v == 0x202F || v == 0x205F || v == 0x3000
}

/// `pat` occurs in `s` at index `i`.
pub open spec fn matches_at(s: Seq<char>, pat: Seq<char>, i: int) -> bool {
    &&& 0 <= i
    &&& i + pat.len() <= s.len()
    &&& forall|k: int| 0 <= k < pat.len() ==> #[trigger] s[i + k] == pat[k]
}

/// The first index at or after `i` where `pat` occurs in `s`, or -1.
pub open spec fn find_from(s: Seq<char>, pat: Seq<char>, i: int) -> int
    decreases s.len() + 1 - i,
{
    if i < 0 || i + pat.len() > s.len() {
        -1
    } else if matches_at(s, pat, i) {
        i
    } else {
        find_from(s, pat, i + 1)
    }
}

/// `pat` occurs in `s`.
pub open spec fn contains(s: Seq<char>, pat: Seq<char>) -> bool {
    find_from(s, pat, 0) >= 0
}

/// The line names touchpad hardware.
pub open spec fn has_keyword(line: Seq<char>) -> bool {
    exists|k: int| 0 <= k < keywords().len() && contains(line, #[trigger] keywords()[k])
}

/// `s` without its trailing white space.
pub open spec fn trim_end(s: Seq<char>) -> Seq<char>
    decreases s.len(),
{
    if s.len() > 0 && is_space(s.last()) {
        trim_end(s.drop_last())
    } else {
        s
    }
}

/// The index of the newline that ends the line running from `i`, or the
/// length of the text for the last line.
pub open spec fn line_end(t: Seq<char>, i: int) -> int
    decreases t.len() - i,
{
    if i < 0 || i >= t.len() {
        t.len() as int
    } else if t[i] == '\n' {
        i
    } else {
        line_end(t, i + 1)
    }
}

/// The device path on an event line: from the device prefix to the end of
/// the line, with trailing white space removed.
pub open spec fn device_of(line: Seq<char>) -> Seq<char> {
    trim_end(line.subrange(find_from(line, device_prefix(), 0), line.len() as int))
}

/// The answer of the scan from line start `i`, with `last` the latest event
/// line seen before it.
pub open spec fn scan_from(t: Seq<char>, i: int, last: Option<Seq<char>>) -> Option<Seq<char>>
    decreases t.len() + 1 - i via scan_from_decreases
{
    if i < 0 || i >= t.len() {
        None
    } else {
        let e = line_end(t, i);
        let line = t.subrange(i, e);
        let seen = if contains(line, event_marker()) {
            Some(line)
        } else {
            last
        };
        if has_keyword(line) && seen is Some && contains(seen->Some_0, device_prefix()) {
            Some(device_of(seen->Some_0))
        } else {
            scan_from(t, e + 1, seen)
        }
    }
}

#[via_fn]
proof fn scan_from_decreases(t: Seq<char>, i: int, last: Option<Seq<char>>) {
    if !(i < 0 || i >= t.len()) {
        lemma_line_end_range(t, i);
    }
}

proof fn lemma_find_from_range(s: Seq<char>, pat: Seq<char>, i: int)
    ensures
        find_from(s, pat, i) == -1 || (i <= find_from(s, pat, i) && matches_at(
            s,
            pat,
            find_from(s, pat, i),
        )),
    decreases s.len() + 1 - i,
{
    if !(i < 0 || i + pat.len() > s.len()) && !matches_at(s, pat, i) {
        lemma_find_from_range(s, pat, i + 1);
    }
}

proof fn lemma_line_end_range(t: Seq<char>, i: int)
    requires
        0 <= i <= t.len(),
    ensures
        i <= line_end(t, i) <= t.len(),
    decreases t.len() - i,
{
    if i < t.len() && t[i] != '\n' {
        lemma_line_end_range(t, i + 1);
    }
}

fn space(c: char) -> (b: bool)
    ensures
        b == is_space(c),
{
    let v: u32 = c as u32;
    (0x09 <= v && v <= 0x0D) || v == 0x20 || v == 0x85 || v == 0xA0 || v == 0x1680 || (0x2000
        <= v && v <= 0x200A) || v == 0x2028 || v == 0x2029 || v == 0x202F || v == 0x205F || v
        == 0x3000
}

fn matches_here(s: &Vec<char>, pat: &Vec<char>, i: usize) -> (b: bool)
    requires
        i + pat@.len() <= s@.len(),
    ensures
        b == matches_at(s@, pat@, i as int),
{
    let mut k: usize = 0;
    while k < pat.len()
        invariant
            i + pat@.len() <= s@.len(),
            k <= pat@.len(),
            forall|j: int| 0 <= j < k ==> #[trigger] s@[i + j] == pat@[j],
        decreases pat@.len() - k,
    {
        assert(i + k < s.len());
        if s[i + k] != pat[k] {
            return false;
        }
        k = k + 1;
    }
    true
}

/// The first index where `pat` occurs in `s`.
fn find(s: &Vec<char>, pat: &Vec<char>) -> (r: Option<usize>)
    ensures
        match r {
            Some(i) => find_from(s@, pat@, 0) == i,
            None => find_from(s@, pat@, 0) == -1,
        },
{
    let mut i: usize = 0;
    while i <= s.len() && pat.len() <= s.len() - i
        invariant
            find_from(s@, pat@, 0) == find_from(s@, pat@, i as int),
        decreases s@.len() + 1 - i,
    {
        if matches_here(s, pat, i) {
            return Some(i);
        }
        i = i + 1;
    }
    None
}

fn contains_pat(s: &Vec<char>, pat: &Vec<char>) -> (b: bool)
    ensures
        b == contains(s@, pat@),
{
    proof {
        lemma_find_from_range(s@, pat@, 0);
    }
    find(s, pat).is_some()
}

fn device_prefix_chars() -> (r: Vec<char>)
    ensures
        r@ == device_prefix(),
{
    let r: Vec<char> = vec!['/', 'd', 'e', 'v', '/', 'i', 'n', 'p', 'u', 't', '/'];
    assert(r@ =~= device_prefix());
    r
}

fn event_marker_chars() -> (r: Vec<char>)
    ensures
        r@ == event_marker(),
{
    let r: Vec<char> = vec![
        'E', 'v', 'e', 'n', 't', ':', ' ', '/', 'd', 'e', 'v', '/', 'i', 'n', 'p', 'u', 't', '/',
    ];
    assert(r@ =~= event_marker());
    r
}

fn names_touchpad(line: &Vec<char>) -> (b: bool)
    ensures
        b == has_keyword(line@),
{
    let k0: Vec<char> = vec!['T', 'o', 'u', 'c', 'h', 'P', 'a', 'd'];
    let k1: Vec<char> = vec!['S', 'y', 'n', 'a', 'p', 't', 'i', 'c', 's'];
    let k2: Vec<char> = vec!['E', 'l', 'a', 'n', 't', 'e', 'c', 'h'];
    let k3: Vec<char> = vec!['E', 'T', 'P', 'S'];
    let k4: Vec<char> = vec!['A', 'L', 'P', 'S'];
    assert(k0@ =~= keywords()[0]);
    assert(k1@ =~= keywords()[1]);
    assert(k2@ =~= keywords()[2]);
    assert(k3@ =~= keywords()[3]);
    assert(k4@ =~= keywords()[4]);
    let b = contains_pat(line, &k0) || contains_pat(line, &k1) || contains_pat(line, &k2)
        || contains_pat(line, &k3) || contains_pat(line, &k4);
    proof {
        if b {
            if contains(line@, keywords()[0]) {
                assert(contains(line@, keywords()[0]));
            } else if contains(line@, keywords()[1]) {
                assert(contains(line@, keywords()[1]));
            } else if contains(line@, keywords()[2]) {
                assert(contains(line@, keywords()[2]));
            } else if contains(line@, keywords()[3]) {
                assert(contains(line@, keywords()[3]));
            } else {
                assert(contains(line@, keywords()[4]));
            }
        } else {
            assert forall|k: int| 0 <= k < keywords().len() implies !contains(
                line@,
                #[trigger] keywords()[k],
            ) by {
                if k == 0 {
                } else if k == 1 {
                } else if k == 2 {
                } else if k == 3 {
                } else {
                }
            }
        }
    }
    b
}

/// The characters of `s` from `from` on, without trailing white space.
fn trimmed_tail(s: &Vec<char>, from: usize) -> (r: Vec<char>)
    requires
        from <= s@.len(),
    ensures
        r@ == trim_end(s@.subrange(from as int, s@.len() as int)),
{
    let mut end: usize = s.len();
    while end > from && space(s[end - 1])
        invariant
            from <= end <= s@.len(),
            trim_end(s@.subrange(from as int, s@.len() as int)) == trim_end(
                s@.subrange(from as int, end as int),
            ),
        decreases end,
    {
        assert(s@.subrange(from as int, end as int).drop_last() =~= s@.subrange(
            from as int,
            end - 1,
        ));
        end = end - 1;
    }
    let mut r: Vec<char> = Vec::new();
    let mut i: usize = from;
    while i < end
        invariant
            from <= i <= end <= s@.len(),
            r@ =~= s@.subrange(from as int, i as int),
        decreases end - i,
    {
        r.push(s[i]);
        i = i + 1;
    }
    assert(!(s@.subrange(from as int, end as int).len() > 0 && is_space(
        s@.subrange(from as int, end as int).last(),
    )));
    r
}

/// The line of `t` that starts at `start`, and the index that ends it.
fn line_at(t: &[char], start: usize) -> (r: (Vec<char>, usize))
    requires
        start <= t@.len(),
    ensures
        r.1 == line_end(t@, start as int),
        r.0@ == t@.subrange(start as int, r.1 as int),
{
    let mut line: Vec<char> = Vec::new();
    let mut i: usize = start;
    while i < t.len() && t[i] != '\n'
        invariant
            start <= i <= t@.len(),
            line_end(t@, start as int) == line_end(t@, i as int),
            line@ =~= t@.subrange(start as int, i as int),
        decreases t@.len() - i,
    {
        line.push(t[i]);
        i = i + 1;
    }
    (line, i)
}

/// The view of an optional line.
pub open spec fn opt_view(o: Option<Vec<char>>) -> Option<Seq<char>> {
    match o {
        Some(v) => Some(v@),
        None => None,
    }
}

/// Scans a device listing line by line. Returns the device path of the
/// latest event line at the first line that names touchpad hardware (a line
/// may be both), or `None` when no such line follows an event line.
pub fn find_touchpad_device(text: &[char]) -> (r: Option<Vec<char>>)
    ensures
        opt_view(r) == scan_from(text@, 0, None),
{
    let prefix: Vec<char> = device_prefix_chars();
    let marker: Vec<char> = event_marker_chars();
    let mut last: Option<Vec<char>> = None;
    let mut start: usize = 0;
    while start < text.len()
        invariant
            prefix@ == device_prefix(),
            marker@ == event_marker(),
            start <= text@.len() + 1,
            scan_from(text@, 0, None) == scan_from(text@, start as int, opt_view(last)),
        decreases text@.len() + 1 - start,
    {
        let (line, e) = line_at(text, start);
        proof {
            lemma_line_end_range(text@, start as int);
        }
        let touchpad: bool = names_touchpad(&line);
        if contains_pat(&line, &marker) {
            last = Some(line);
        }
        if touchpad {
            if let Some(ev) = &last {
                if let Some(idx) = find(ev, &prefix) {
                    proof {
                        lemma_find_from_range(ev@, prefix@, 0);
                    }
                    return Some(trimmed_tail(ev, idx));
                }
            }
        }
        if e >= text.len() {
            assert(scan_from(text@, e + 1, opt_view(last)) == None::<Seq<char>>);
            return None;
        }
        start = e + 1;
    }
    None
}

} // verus!
