//! Text helpers shared across the crate: concatenation, equality and the
//! dictionary order by which listings are sorted.

use vstd::prelude::*;
use vstd::string::StringExecFns;

verus! {

/// `a` and `b` agree on their first `k` characters.
pub open spec fn common_prefix(a: Seq<char>, b: Seq<char>, k: int) -> bool {
    &&& 0 <= k <= a.len()
    &&& k <= b.len()
    &&& forall|j: int| 0 <= j < k ==> a[j] == b[j]
}

/// Dictionary order on texts, character by character and by code point: `a`
/// is a prefix of `b`, or at the first place where they differ `a` holds the
/// smaller character.
pub open spec fn text_le(a: Seq<char>, b: Seq<char>) -> bool {
    exists|k: int| below_from(a, b, k)
}

/// `a` and `b` agree before place `k`, and there `a` ends or holds the
/// smaller character.
pub open spec fn below_from(a: Seq<char>, b: Seq<char>, k: int) -> bool {
    common_prefix(a, b, k) && (k == a.len() || (k < b.len() && (a[k] as u32) < (b[k] as u32)))
}

/// Two texts that are below each other are the same text.
pub proof fn lemma_text_le_antisymmetric(a: Seq<char>, b: Seq<char>)
    requires
        text_le(a, b),
        text_le(b, a),
    ensures
        a == b,
{
    let k1 = choose|k: int| below_from(a, b, k);
    let k2 = choose|k: int| below_from(b, a, k);
    if k1 < k2 {
        assert(b[k1] == a[k1]);
    } else if k2 < k1 {
        assert(a[k2] == b[k2]);
    }
    assert(a =~= b);
}

/// The order is transitive.
pub proof fn lemma_text_le_transitive(a: Seq<char>, b: Seq<char>, c: Seq<char>)
    requires
        text_le(a, b),
        text_le(b, c),
    ensures
        text_le(a, c),
{
    let k1 = choose|k: int| below_from(a, b, k);
    let k2 = choose|k: int| below_from(b, c, k);
    let k = if k1 <= k2 { k1 } else { k2 };
    assert(below_from(a, c, k));
}

/// The text `a` followed by the text `b`.
pub fn concatenate(a: &str, b: &str) -> (r: String)
    ensures
        r@ == a@ + b@,
{
    let mut r = String::from_str(a);
    r.append(b);
    r
}

/// The path of the entry `name` in the directory `dir`.
pub open spec fn path_join(dir: Seq<char>, name: Seq<char>) -> Seq<char> {
    dir + "/"@ + name
}

/// The path of the entry `name` in the directory `dir`.
pub fn join_path(dir: &str, name: &str) -> (r: String)
    ensures
        r@ == path_join(dir@, name@),
{
    let mut r = String::from_str(dir);
    r.append("/");
    r.append(name);
    r
}

/// Whether two texts hold the same characters.
pub fn same_text(a: &str, b: &str) -> (r: bool)
    ensures
        r == (a@ == b@),
{
    let x = a.as_bytes();
    let y = b.as_bytes();
    proof {
        vstd::utf8::encode_utf8_decode_utf8(a@);
        vstd::utf8::encode_utf8_decode_utf8(b@);
    }
    if x.len() != y.len() {
        return false;
    }
    let mut i: usize = 0;
    while i < x.len()
        invariant
            x@ == vstd::utf8::encode_utf8(a@),
            y@ == vstd::utf8::encode_utf8(b@),
            x@.len() == y@.len(),
            i <= x@.len(),
            forall|j: int| 0 <= j < i ==> x@[j] == y@[j],
        decreases x@.len() - i,
    {
        if x[i] != y[i] {
            return false;
        }
        i = i + 1;
    }
    assert(x@ =~= y@);
    true
}

/// The characters of a text, one by one.
pub fn characters(text: &str) -> (r: Vec<char>)
    ensures
        r@ == text@,
{
    broadcast use vstd::string::group_string_axioms;

    let mut r: Vec<char> = Vec::new();
    for c in it: text.chars()
        invariant
            it.seq() == text@,
            r@ == text@.take(it.index()),
    {
        proof {
            assert(text@.take(it.index() + 1) =~= text@.take(it.index()).push(c));
        }
        r.push(c);
    }
    proof {
        assert(text@.take(text@.len() as int) =~= text@);
    }
    r
}

/// Decides the dictionary order of two texts. When `a` is not below `b`,
/// `b` is below `a`: the order is total.
pub fn text_precedes(a: &str, b: &str) -> (r: bool)
    ensures
        r == text_le(a@, b@),
        !r ==> text_le(b@, a@),
{
    let x = characters(a);
    let y = characters(b);
    let n = x.len();
    let m = y.len();
    let mut i: usize = 0;
    while i < n && i < m
        invariant
            x@ == a@,
            y@ == b@,
            n == a@.len(),
            m == b@.len(),
            i <= n,
            i <= m,
            forall|j: int| 0 <= j < i ==> a@[j] == b@[j],
        decreases n - i,
    {
        let c = x[i];
        let d = y[i];
        if c != d {
            let below = (c as u32) < (d as u32);
            proof {
                let k = i as int;
                vstd::utf8::char_u32_cast(c, c as u32);
                vstd::utf8::char_u32_cast(d, d as u32);
                if below {
                    assert(below_from(a@, b@, k));
                } else {
                    assert(below_from(b@, a@, k));
                    lemma_not_below(a@, b@, k);
                }
            }
            return below;
        }
        i = i + 1;
    }
    proof {
        let k = i as int;
        if i == n {
            assert(below_from(a@, b@, k));
        } else {
            assert(below_from(b@, a@, k));
            lemma_not_below(a@, b@, k);
        }
    }
    i == n
}

/// If `a` and `b` agree before place `k`, and there `b` ends or holds the
/// smaller character while `a` goes on, then `a` is not below `b`.
proof fn lemma_not_below(a: Seq<char>, b: Seq<char>, k: int)
    requires
        common_prefix(b, a, k),
        k < a.len(),
        k == b.len() || (b[k] as u32) < (a[k] as u32),
    ensures
        !text_le(a, b),
{
    if text_le(a, b) {
        let w = choose|w: int| below_from(a, b, w);
        if w < k {
            assert(b[w] == a[w]);
        } else if w > k {
            assert(a[k] == b[k]);
        }
    }
}

} // verus!
