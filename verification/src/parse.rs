//! Scanning primitives the request decoder is built on: first-occurrence
//! searches over characters and bytes, line splitting on CRLF, and
//! whitespace trimming.

use vstd::prelude::*;

verus! {

/// The first index at or after `i` whose character satisfies `p`, or the
/// length when none does.
pub open spec fn scan(s: Seq<char>, i: int, p: spec_fn(char) -> bool) -> int
    decreases s.len() - i,
{
    if i < 0 || i >= s.len() {
        s.len() as int
    } else if p(s[i]) {
        i
    } else {
        scan(s, i + 1, p)
    }
}

pub proof fn lemma_scan(s: Seq<char>, i: int, p: spec_fn(char) -> bool)
    requires
        0 <= i <= s.len(),
    ensures
        ({
            let r = scan(s, i, p);
            &&& i <= r <= s.len()
            &&& r < s.len() ==> p(s[r])
            &&& forall|j: int| i <= j < r ==> !p(s[j])
        }),
    decreases s.len() - i,
{
    if i < s.len() && !p(s[i]) {
        lemma_scan(s, i + 1, p);
    }
}

/// A space or horizontal tab, the separators of the request line.
pub open spec fn is_sp(c: char) -> bool {
    c == ' ' || c == '\t'
}

/// The whitespace stripped from header names and values.
pub open spec fn is_ws(c: char) -> bool {
    c == ' ' || c == '\t' || c == '\r' || c == '\n'
}

/// The first index at or after `from` holding character `c`, or the length.
#[verifier::loop_isolation(false)]
pub fn scan_char(s: &str, from: usize, c: char) -> (r: usize)
    requires
        from <= s@.len(),
    ensures
        r == scan(s@, from as int, |x: char| x == c),
        from <= r <= s@.len(),
{
    proof {
        lemma_scan(s@, from as int, |x: char| x == c);
    }
    let n = s.unicode_len();
    let mut i: usize = from;
    while i < n
        invariant
            from <= i <= n,
            n == s@.len(),
            forall|j: int| from <= j < i ==> s@[j] != c,
        decreases n - i,
    {
        if s.get_char(i) == c {
            proof {
                let p = |x: char| x == c;
                assert(p(s@[i as int]));
            }
            return i;
        }
        proof {
            let p = |x: char| x == c;
            assert(!p(s@[i as int]));
        }
        i += 1;
    }
    n
}

/// The first index at or after `from` holding a space or tab, or the length.
#[verifier::loop_isolation(false)]
pub fn scan_sp(s: &str, from: usize) -> (r: usize)
    requires
        from <= s@.len(),
    ensures
        r == scan(s@, from as int, |x: char| is_sp(x)),
        from <= r <= s@.len(),
{
    proof {
        lemma_scan(s@, from as int, |x: char| is_sp(x));
    }
    let n = s.unicode_len();
    let mut i: usize = from;
    while i < n
        invariant
            from <= i <= n,
            n == s@.len(),
            forall|j: int| from <= j < i ==> !is_sp(s@[j]),
        decreases n - i,
    {
        let ch = s.get_char(i);
        if ch == ' ' || ch == '\t' {
            proof {
                let p = |x: char| is_sp(x);
                assert(p(s@[i as int]));
            }
            return i;
        }
        i += 1;
    }
    n
}

/// The first index at or after `from` holding anything but a space or tab.
#[verifier::loop_isolation(false)]
pub fn scan_non_sp(s: &str, from: usize) -> (r: usize)
    requires
        from <= s@.len(),
    ensures
        r == scan(s@, from as int, |x: char| !is_sp(x)),
        from <= r <= s@.len(),
{
    proof {
        lemma_scan(s@, from as int, |x: char| !is_sp(x));
    }
    let n = s.unicode_len();
    let mut i: usize = from;
    while i < n
        invariant
            from <= i <= n,
            n == s@.len(),
            forall|j: int| from <= j < i ==> is_sp(s@[j]),
        decreases n - i,
    {
        let ch = s.get_char(i);
        if !(ch == ' ' || ch == '\t') {
            proof {
                let p = |x: char| !is_sp(x);
                assert(p(s@[i as int]));
            }
            return i;
        }
        i += 1;
    }
    n
}

/// The first index at or after `from` holding anything but whitespace.
#[verifier::loop_isolation(false)]
pub fn scan_non_ws(s: &str, from: usize) -> (r: usize)
    requires
        from <= s@.len(),
    ensures
        r == scan(s@, from as int, |x: char| !is_ws(x)),
        from <= r <= s@.len(),
{
    proof {
        lemma_scan(s@, from as int, |x: char| !is_ws(x));
    }
    let n = s.unicode_len();
    let mut i: usize = from;
    while i < n
        invariant
            from <= i <= n,
            n == s@.len(),
            forall|j: int| from <= j < i ==> is_ws(s@[j]),
        decreases n - i,
    {
        let ch = s.get_char(i);
        if !(ch == ' ' || ch == '\t' || ch == '\r' || ch == '\n') {
            proof {
                let p = |x: char| !is_ws(x);
                assert(p(s@[i as int]));
            }
            return i;
        }
        i += 1;
    }
    n
}

/// Where the content of `s` ends once trailing whitespace is stripped.
pub open spec fn content_end(s: Seq<char>) -> int
    decreases s.len(),
{
    if s.len() == 0 {
        0
    } else if is_ws(s.last()) {
        content_end(s.drop_last())
    } else {
        s.len() as int
    }
}

pub proof fn lemma_content_end(s: Seq<char>)
    ensures
        ({
            let r = content_end(s);
            &&& 0 <= r <= s.len()
            &&& r > 0 ==> !is_ws(s[r - 1])
            &&& forall|j: int| r <= j < s.len() ==> is_ws(s[j])
        }),
    decreases s.len(),
{
    if s.len() > 0 && is_ws(s.last()) {
        lemma_content_end(s.drop_last());
        assert(forall|j: int| 0 <= j < s.len() - 1 ==> s.drop_last()[j] == s[j]);
    }
}

/// What `s` is with surrounding whitespace stripped.
pub open spec fn spec_trim(s: Seq<char>) -> Seq<char> {
    let r = content_end(s);
    let l = scan(s, 0, |x: char| !is_ws(x));
    if l < r {
        s.subrange(l, r)
    } else {
        Seq::empty()
    }
}

/// Whether a character is whitespace.
fn is_ws_char(c: char) -> (r: bool)
    ensures
        r == is_ws(c),
{
    c == ' ' || c == '\t' || c == '\r' || c == '\n'
}

/// Strips whitespace from both ends.
#[verifier::loop_isolation(false)]
pub fn trim(s: &str) -> (r: String)
    ensures
        r@ == spec_trim(s@),
{
    proof {
        lemma_content_end(s@);
        lemma_scan(s@, 0, |x: char| !is_ws(x));
    }
    let n = s.unicode_len();
    let mut e: usize = n;
    while e > 0 && is_ws_char(s.get_char(e - 1))
        invariant
            0 <= e <= n,
            n == s@.len(),
            forall|j: int| e <= j < n ==> is_ws(s@[j]),
        decreases e,
    {
        e -= 1;
    }
    proof {
        let r = content_end(s@);
        let p = |x: char| !is_ws(x);
        if e != r {
            if e < r {
                assert(is_ws(s@[r - 1]));
            } else {
                assert(is_ws(s@[e - 1]));
            }
            assert(false);
        }
    }
    let l = scan_non_ws(s, 0);
    if l < e {
        let t = s.substring_char(l, e);
        t.to_owned()
    } else {
        String::new()
    }
}

/// A CRLF pair begins at index `i`.
pub open spec fn crlf_at(s: Seq<char>, i: int) -> bool {
    0 <= i && i + 1 < s.len() && s[i] == '\r' && s[i + 1] == '\n'
}

/// The first index at or after `i` where a CRLF pair begins, or the length.
pub open spec fn find_crlf(s: Seq<char>, i: int) -> int
    decreases s.len() - i,
{
    if i < 0 || i + 1 >= s.len() {
        s.len() as int
    } else if crlf_at(s, i) {
        i
    } else {
        find_crlf(s, i + 1)
    }
}

pub proof fn lemma_find_crlf(s: Seq<char>, i: int)
    requires
        0 <= i <= s.len(),
    ensures
        ({
            let r = find_crlf(s, i);
            &&& i <= r <= s.len()
            &&& r < s.len() ==> crlf_at(s, r)
            &&& forall|j: int| i <= j < r ==> !crlf_at(s, j)
        }),
    decreases s.len() - i,
{
    if !(i < 0 || i + 1 >= s.len()) && !crlf_at(s, i) {
        lemma_find_crlf(s, i + 1);
    }
}

/// Finds the first CRLF pair at or after `from`; the length means none.
#[verifier::loop_isolation(false)]
pub fn find_crlf_str(s: &str, from: usize) -> (r: usize)
    requires
        from <= s@.len(),
    ensures
        r == find_crlf(s@, from as int),
        from <= r <= s@.len(),
{
    proof {
        lemma_find_crlf(s@, from as int);
    }
    let n = s.unicode_len();
    if n == 0 {
        return 0;
    }
    let mut i: usize = from;
    while i < n - 1
        invariant
            n >= 1,
            from <= i,
            i <= n,
            n == s@.len(),
            forall|j: int| from <= j < i ==> !crlf_at(s@, j),
        decreases n - i,
    {
        if s.get_char(i) == '\r' && s.get_char(i + 1) == '\n' {
            assert(crlf_at(s@, i as int));
            return i;
        }
        assert(!crlf_at(s@, i as int));
        i += 1;
    }
    assert(forall|j: int| from <= j < s@.len() ==> !crlf_at(s@, j));
    n
}

/// The lines of `s`, split on CRLF pairs; the separators are dropped and
/// an ending CRLF still yields a final empty line.
pub open spec fn spec_split_crlf(s: Seq<char>) -> Seq<Seq<char>>
    decreases s.len(),
{
    let i = find_crlf(s, 0);
    if i < 0 || i + 1 >= s.len() {
        seq![s]
    } else {
        seq![s.take(i)] + spec_split_crlf(s.skip(i + 2))
    }
}

/// The character sequences of a vector of strings.
pub open spec fn strs_view(v: Seq<String>) -> Seq<Seq<char>> {
    Seq::new(v.len(), |i: int| v[i]@)
}

/// Splits on CRLF pairs.
pub fn split_crlf(s: &str) -> (r: Vec<String>)
    ensures
        strs_view(r@) == spec_split_crlf(s@),
        r@.len() >= 1,
    decreases s@.len(),
{
    proof {
        lemma_find_crlf(s@, 0);
    }
    let n = s.unicode_len();
    let i = find_crlf_str(s, 0);
    if i >= n {
        let mut v: Vec<String> = Vec::new();
        v.push(s.to_owned());
        assert(strs_view(v@) =~= seq![s@]);
        v
    } else {
        assert(crlf_at(s@, i as int));
        let first = s.substring_char(0, i).to_owned();
        let rest = s.substring_char(i + 2, n);
        assert(rest@ == s@.skip(i + 2)) by {
            assert(s@.subrange(i + 2, n as int) =~= s@.skip(i + 2));
        }
        let mut v = split_crlf(rest);
        v.insert(0, first);
        assert(strs_view(v@) =~= seq![s@.take(i as int)] + spec_split_crlf(s@.skip(i + 2)));
        v
    }
}

/// A header terminator (CRLF CRLF) begins at byte index `i`.
pub open spec fn term_at(b: Seq<u8>, i: int) -> bool {
    0 <= i && i + 3 < b.len() && b[i] == 13 && b[i + 1] == 10 && b[i + 2] == 13 && b[i + 3] == 10
}

/// The first index at or after `i` where the header terminator begins, or
/// the length when the buffer holds none.
pub open spec fn find_term(b: Seq<u8>, i: int) -> int
    decreases b.len() - i,
{
    if i < 0 || i + 3 >= b.len() {
        b.len() as int
    } else if term_at(b, i) {
        i
    } else {
        find_term(b, i + 1)
    }
}

pub proof fn lemma_find_term(b: Seq<u8>, i: int)
    requires
        0 <= i <= b.len(),
    ensures
        ({
            let r = find_term(b, i);
            &&& i <= r <= b.len()
            &&& r < b.len() ==> term_at(b, r)
            &&& forall|j: int| i <= j < r ==> !term_at(b, j)
        }),
    decreases b.len() - i,
{
    if !(i < 0 || i + 3 >= b.len()) && !term_at(b, i) {
        lemma_find_term(b, i + 1);
    }
}

/// Finds the header terminator; the length means the head is incomplete.
#[verifier::loop_isolation(false)]
pub fn find_term_vec(b: &Vec<u8>) -> (r: usize)
    ensures
        r == find_term(b@, 0),
        r <= b@.len(),
{
    proof {
        lemma_find_term(b@, 0);
    }
    let n = b.len();
    if n < 4 {
        return n;
    }
    let mut i: usize = 0;
    while i < n - 3
        invariant
            n >= 4,
            i <= n,
            n == b@.len(),
            forall|j: int| 0 <= j < i ==> !term_at(b@, j),
        decreases n - i,
    {
        if b[i] == 13 && b[i + 1] == 10 && b[i + 2] == 13 && b[i + 3] == 10 {
            assert(term_at(b@, i as int));
            return i;
        }
        assert(!term_at(b@, i as int));
        i += 1;
    }
    assert(forall|j: int| 0 <= j < b@.len() ==> !term_at(b@, j));
    n
}

/// Copies the bytes of a range out of a buffer.
#[verifier::loop_isolation(false)]
pub fn copy_range(b: &Vec<u8>, from: usize, to: usize) -> (r: Vec<u8>)
    requires
        from <= to <= b@.len(),
    ensures
        r@ == b@.subrange(from as int, to as int),
{
    let mut out: Vec<u8> = Vec::new();
    let mut i: usize = from;
    while i < to
        invariant
            from <= i <= to,
            out@.len() == i - from,
            forall|j: int| from <= j < i ==> out@[j - from] == b@[j],
        decreases to - i,
    {
        out.push(b[i]);
        i += 1;
    }
    assert(out@ =~= b@.subrange(from as int, to as int));
    out
}

/// Whether every byte is ASCII.
#[verifier::loop_isolation(false)]
pub fn check_ascii(b: &Vec<u8>) -> (r: bool)
    ensures
        r == crate::text::all_ascii(b@),
{
    let n = b.len();
    let mut i: usize = 0;
    while i < n
        invariant
            0 <= i <= n,
            n == b@.len(),
            forall|j: int| 0 <= j < i ==> b@[j] < 0x80,
        decreases n - i,
    {
        if b[i] >= 0x80 {
            return false;
        }
        i += 1;
    }
    true
}

} // verus!
