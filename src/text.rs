//! Character-sequence helpers shared by the line reader and the matcher:
//! Unicode white space, trimming, prefixes, and building `String`s.
use vstd::prelude::*;

verus! {

/// The Unicode `White_Space` property, which `char::is_whitespace`,
/// `str::trim` and `str::split_whitespace` go by.
pub open spec fn is_space(c: char) -> bool {
    let u = c as u32;
    (0x09 <= u && u <= 0x0d) || u == 0x20 || u == 0x85 || u == 0xa0 || u == 0x1680 || (0x2000
        <= u && u <= 0x200a) || u == 0x2028 || u == 0x2029 || u == 0x202f || u == 0x205f || u
        == 0x3000
}

/// `s` with its leading white space removed.
pub open spec fn trim_start(s: Seq<char>) -> Seq<char>
    decreases s.len(),
{
    if s.len() > 0 && is_space(s[0]) {
        trim_start(s.subrange(1, s.len() as int))
    } else {
        s
    }
}

/// `s` with its trailing white space removed.
pub open spec fn trim_end(s: Seq<char>) -> Seq<char>
    decreases s.len(),
{
    if s.len() > 0 && is_space(s.last()) {
        trim_end(s.drop_last())
    } else {
        s
    }
}

/// `s` with white space removed at both ends, as `str::trim` does.
pub open spec fn trim(s: Seq<char>) -> Seq<char> {
    trim_end(trim_start(s))
}

/// How many white-space characters open `s`.
pub open spec fn lead_len(s: Seq<char>) -> nat {
    (s.len() - trim_start(s).len()) as nat
}

pub open spec fn is_prefix(p: Seq<char>, s: Seq<char>) -> bool {
    p.len() <= s.len() && s.subrange(0, p.len() as int) == p
}

pub open spec fn all_space(s: Seq<char>) -> bool {
    forall|i: int| 0 <= i < s.len() ==> is_space(#[trigger] s[i])
}

/// Dropping a run of white space at the front does not change `trim_start`.
pub proof fn lemma_trim_start_skip(s: Seq<char>, k: int)
    requires
        0 <= k <= s.len(),
        all_space(s.subrange(0, k)),
    ensures
        trim_start(s) == trim_start(s.subrange(k, s.len() as int)),
    decreases k,
{
    if k > 0 {
        assert(s.subrange(0, k)[0] == s[0]);
        assert(is_space(s[0]));
        let t = s.subrange(1, s.len() as int);
        assert(trim_start(s) == trim_start(t));
        assert forall|i: int| 0 <= i < k - 1 implies is_space(#[trigger] t.subrange(0, k - 1)[i]) by {
            assert(t.subrange(0, k - 1)[i] == s.subrange(0, k)[i + 1]);
        }
        lemma_trim_start_skip(t, k - 1);
        assert(t.subrange(k - 1, t.len() as int) == s.subrange(k, s.len() as int));
    } else {
        assert(s.subrange(0, s.len() as int) == s);
    }
}

/// Once the front is not white space, `trim_start` leaves the sequence alone.
pub proof fn lemma_trim_start_at(s: Seq<char>, k: int)
    requires
        0 <= k <= s.len(),
        all_space(s.subrange(0, k)),
        k == s.len() || !is_space(s[k]),
    ensures
        trim_start(s) == s.subrange(k, s.len() as int),
{
    lemma_trim_start_skip(s, k);
    let t = s.subrange(k, s.len() as int);
    if t.len() > 0 {
        assert(t[0] == s[k]);
    }
}

/// Dropping a run of white space at the back does not change `trim_end`.
pub proof fn lemma_trim_end_skip(s: Seq<char>, k: int)
    requires
        0 <= k <= s.len(),
        all_space(s.subrange(k, s.len() as int)),
    ensures
        trim_end(s) == trim_end(s.subrange(0, k)),
    decreases s.len() - k,
{
    if k < s.len() {
        assert(s.subrange(k, s.len() as int)[s.len() - 1 - k] == s.last());
        assert(is_space(s.last()));
        let t = s.drop_last();
        assert(trim_end(s) == trim_end(t));
        assert forall|i: int| 0 <= i < t.len() - k implies is_space(
            #[trigger] t.subrange(k, t.len() as int)[i],
        ) by {
            assert(t.subrange(k, t.len() as int)[i] == s.subrange(k, s.len() as int)[i]);
        }
        lemma_trim_end_skip(t, k);
        assert(t.subrange(0, k) == s.subrange(0, k));
    } else {
        assert(s.subrange(0, s.len() as int) == s);
    }
}

/// Once the back is not white space, `trim_end` leaves the sequence alone.
pub proof fn lemma_trim_end_at(s: Seq<char>, k: int)
    requires
        0 <= k <= s.len(),
        all_space(s.subrange(k, s.len() as int)),
        k == 0 || !is_space(s[k - 1]),
    ensures
        trim_end(s) == s.subrange(0, k),
{
    lemma_trim_end_skip(s, k);
    let t = s.subrange(0, k);
    if t.len() > 0 {
        assert(t.last() == s[k - 1]);
    }
}

/// Whether `c` has the Unicode `White_Space` property.
pub fn is_space_char(c: char) -> (r: bool)
    ensures
        r == is_space(c),
{
    let u = c as u32;
    (0x09 <= u && u <= 0x0d) || u == 0x20 || u == 0x85 || u == 0xa0 || u == 0x1680 || (0x2000
        <= u && u <= 0x200a) || u == 0x2028 || u == 0x2029 || u == 0x202f || u == 0x205f || u
        == 0x3000
}

/// Relies on String::push: appends one character to the string.
#[verifier::external_body]
fn push_char(s: &mut String, c: char)
    ensures
        final(s)@ == old(s)@.push(c),
{
    s.push(c)
}

/// The characters of `s`, in order.
pub fn chars_of(s: &str) -> (r: Vec<char>)
    ensures
        r@ == s@,
{
    let mut v: Vec<char> = Vec::new();
    for c in it: s.chars()
        invariant
            v@ == it.seq().subrange(0, it.index() as int),
    {
        v.push(c);
    }
    v
}

/// A `String` holding `v[from..to]`.
pub fn string_of(v: &Vec<char>, from: usize, to: usize) -> (r: String)
    requires
        from <= to <= v.len(),
    ensures
        r@ == v@.subrange(from as int, to as int),
{
    let mut s = String::new();
    let mut i = from;
    while i < to
        invariant
            from <= i <= to <= v.len(),
            s@ == v@.subrange(from as int, i as int),
        decreases to - i,
    {
        push_char(&mut s, v[i]);
        assert(v@.subrange(from as int, i + 1) == v@.subrange(from as int, i as int).push(v@[i as int]));
        i += 1;
    }
    s
}

/// The number of white-space characters that open `v[from..]`.
pub fn lead_space_count(v: &Vec<char>, from: usize) -> (n: usize)
    requires
        from <= v.len(),
    ensures
        from + n <= v.len(),
        n == lead_len(v@.subrange(from as int, v.len() as int)),
        trim_start(v@.subrange(from as int, v.len() as int)) == v@.subrange(
            from + n,
            v.len() as int,
        ),
{
    let ghost s = v@.subrange(from as int, v.len() as int);
    let mut i = from;
    while i < v.len() && is_space_char(v[i])
        invariant
            from <= i <= v.len(),
            s == v@.subrange(from as int, v.len() as int),
            all_space(s.subrange(0, i - from)),
        decreases v.len() - i,
    {
        proof {
            assert forall|j: int| 0 <= j < i + 1 - from implies is_space(
                #[trigger] s.subrange(0, i + 1 - from)[j],
            ) by {
                if j < i - from {
                    assert(s.subrange(0, i + 1 - from)[j] == s.subrange(0, i - from)[j]);
                }
            }
        }
        i += 1;
    }
    proof {
        lemma_trim_start_at(s, i - from);
        assert(s.subrange(i - from, s.len() as int) == v@.subrange(i as int, v.len() as int));
    }
    i - from
}

/// The end of `v[from..to]` once its trailing white space is dropped.
pub fn trail_space_end(v: &Vec<char>, from: usize, to: usize) -> (e: usize)
    requires
        from <= to <= v.len(),
    ensures
        from <= e <= to,
        trim_end(v@.subrange(from as int, to as int)) == v@.subrange(from as int, e as int),
{
    let ghost s = v@.subrange(from as int, to as int);
    let mut e = to;
    while e > from && is_space_char(v[e - 1])
        invariant
            from <= e <= to <= v.len(),
            s == v@.subrange(from as int, to as int),
            all_space(s.subrange(e - from, s.len() as int)),
        decreases e - from,
    {
        proof {
            assert forall|j: int| 0 <= j < s.len() - (e - 1 - from) implies is_space(
                #[trigger] s.subrange(e - 1 - from, s.len() as int)[j],
            ) by {
                if j > 0 {
                    assert(s.subrange(e - 1 - from, s.len() as int)[j] == s.subrange(
                        e - from,
                        s.len() as int,
                    )[j - 1]);
                }
            }
        }
        e -= 1;
    }
    proof {
        lemma_trim_end_at(s, e - from);
        assert(s.subrange(0, e - from) == v@.subrange(from as int, e as int));
    }
    e
}

/// `trim` of `v[from..]`, as the bounds of what is kept.
pub fn trim_bounds(v: &Vec<char>, from: usize) -> (r: (usize, usize))
    requires
        from <= v.len(),
    ensures
        from <= r.0 <= r.1 <= v.len(),
        r.0 - from == lead_len(v@.subrange(from as int, v.len() as int)),
        trim(v@.subrange(from as int, v.len() as int)) == v@.subrange(r.0 as int, r.1 as int),
{
    let n = lead_space_count(v, from);
    let b = from + n;
    let e = trail_space_end(v, b, v.len());
    (b, e)
}

/// Whether `a` and `b` hold the same characters.
pub fn same_text(a: &str, b: &str) -> (r: bool)
    ensures
        r == (a@ == b@),
{
    let x = chars_of(a);
    let y = chars_of(b);
    if x.len() != y.len() {
        assert(x@.len() != y@.len());
        return false;
    }
    let mut i: usize = 0;
    while i < x.len()
        invariant
            i <= x@.len() == y@.len(),
            x@ == a@,
            y@ == b@,
            forall|j: int| 0 <= j < i ==> x@[j] == y@[j],
        decreases x.len() - i,
    {
        if x[i] != y[i] {
            assert(x@[i as int] != y@[i as int]);
            return false;
        }
        i += 1;
    }
    assert(x@ =~= y@);
    true
}

/// A copy of `v[from..to]`.
pub fn sub_vec(v: &Vec<char>, from: usize, to: usize) -> (r: Vec<char>)
    requires
        from <= to <= v.len(),
    ensures
        r@ == v@.subrange(from as int, to as int),
{
    let mut r: Vec<char> = Vec::new();
    let mut i = from;
    while i < to
        invariant
            from <= i <= to <= v.len(),
            r@ == v@.subrange(from as int, i as int),
        decreases to - i,
    {
        r.push(v[i]);
        assert(v@.subrange(from as int, i + 1) == v@.subrange(from as int, i as int).push(v@[i as int]));
        i += 1;
    }
    r
}

/// Whether `p` opens `v[from..]`.
pub fn has_prefix_at(v: &Vec<char>, from: usize, p: &Vec<char>) -> (r: bool)
    requires
        from <= v.len(),
    ensures
        r == is_prefix(p@, v@.subrange(from as int, v.len() as int)),
{
    if p.len() > v.len() - from {
        return false;
    }
    let mut i: usize = 0;
    while i < p.len()
        invariant
            i <= p.len() <= v.len() - from,
            forall|j: int| 0 <= j < i ==> v@[from + j] == p@[j],
        decreases p.len() - i,
    {
        if v[from + i] != p[i] {
            assert(v@.subrange(from as int, v.len() as int).subrange(0, p.len() as int)[i as int]
                != p@[i as int]);
            return false;
        }
        i += 1;
    }
    assert(v@.subrange(from as int, v.len() as int).subrange(0, p.len() as int) == p@);
    true
}

/// The lines joined with line breaks between them.
pub open spec fn join_lines(ls: Seq<Seq<char>>) -> Seq<char>
    decreases ls.len(),
{
    if ls.len() == 0 {
        seq![]
    } else if ls.len() == 1 {
        ls[0]
    } else {
        join_lines(ls.drop_last()) + seq!['\n'] + ls.last()
    }
}

/// Appends the characters of `t` to `s`.
pub fn append_text(s: &mut String, t: &str)
    ensures
        final(s)@ == old(s)@ + t@,
{
    let v = chars_of(t);
    let ghost start = s@;
    let mut i: usize = 0;
    while i < v.len()
        invariant
            i <= v@.len(),
            s@ == start + v@.subrange(0, i as int),
        decreases v.len() - i,
    {
        push_char(s, v[i]);
        assert(v@.subrange(0, i + 1) == v@.subrange(0, i as int).push(v@[i as int]));
        i += 1;
    }
    assert(v@.subrange(0, v@.len() as int) == v@);
}

/// The lines joined with line breaks between them.
pub fn join_lines_exec(lines: &Vec<String>) -> (r: String)
    ensures
        r@ == join_lines(lines.deep_view()),
{
    let mut s = String::new();
    let mut i: usize = 0;
    while i < lines.len()
        invariant
            i <= lines@.len(),
            s@ == join_lines(lines.deep_view().subrange(0, i as int)),
        decreases lines.len() - i,
    {
        let ghost pre = lines.deep_view().subrange(0, i as int);
        let ghost next = lines.deep_view().subrange(0, i + 1);
        assert(next.drop_last() == pre);
        assert(next.last() == lines@[i as int]@);
        if i > 0 {
            push_char(&mut s, '\n');
        }
        append_text(&mut s, lines[i].as_str());
        i += 1;
    }
    assert(lines.deep_view().subrange(0, lines@.len() as int) == lines.deep_view());
    s
}

/// Trimming the front twice is trimming it once.
pub proof fn lemma_trim_start_twice(s: Seq<char>)
    ensures
        trim_start(trim_start(s)) == trim_start(s),
    decreases s.len(),
{
    if s.len() > 0 && is_space(s[0]) {
        lemma_trim_start_twice(s.subrange(1, s.len() as int));
    }
}

/// Trimming the back twice is trimming it once, and keeps a prefix.
pub proof fn lemma_trim_end_twice(s: Seq<char>)
    ensures
        trim_end(trim_end(s)) == trim_end(s),
        trim_end(s).len() <= s.len(),
        trim_end(s) == s.subrange(0, trim_end(s).len() as int),
    decreases s.len(),
{
    if s.len() > 0 && is_space(s.last()) {
        lemma_trim_end_twice(s.drop_last());
        assert(s.drop_last().subrange(0, trim_end(s).len() as int) == s.subrange(
            0,
            trim_end(s).len() as int,
        ));
    } else {
        assert(s.subrange(0, s.len() as int) == s);
    }
}

/// What trimming the front leaves opens with a character other than white space.
pub proof fn lemma_trim_start_front(s: Seq<char>)
    ensures
        trim_start(s).len() > 0 ==> !is_space(trim_start(s)[0]),
    decreases s.len(),
{
    if s.len() > 0 && is_space(s[0]) {
        lemma_trim_start_front(s.subrange(1, s.len() as int));
    }
}

/// Trimming a trimmed sequence leaves it as it is.
pub proof fn lemma_trim_twice(s: Seq<char>)
    ensures
        trim(trim(s)) == trim(s),
{
    let a = trim_start(s);
    lemma_trim_start_twice(s);
    lemma_trim_end_twice(a);
    let b = trim_end(a);
    lemma_trim_start_front(s);
    if b.len() > 0 {
        assert(b[0] == a[0]);
        assert(!is_space(a[0]));
    }
    assert(trim_start(b) == b);
}

} // verus!
