use vstd::prelude::*;
use vstd::utf8::encode_utf8;

use crate::errors::Error;

verus! {

/// `p` is the position of the first nul byte of `b`.
pub open spec fn is_first_nul(b: Seq<u8>, p: int) -> bool {
    &&& 0 <= p < b.len()
    &&& b[p] == 0
    &&& forall|j: int| 0 <= j < p ==> b[j] != 0
}

/// `b` holds a nul byte somewhere.
pub open spec fn has_nul(b: Seq<u8>) -> bool {
    exists|p: int| 0 <= p < b.len() && b[p] == 0
}

/// The option tokens, separated by single spaces.
pub open spec fn joined(parts: Seq<Seq<char>>) -> Seq<char>
    decreases parts.len(),
{
    if parts.len() == 0 {
        seq![]
    } else if parts.len() == 1 {
        parts[0]
    } else {
        joined(parts.drop_last()) + seq![' '] + parts.last()
    }
}

/// The characters of each string slice.
pub open spec fn str_views(s: Seq<&str>) -> Seq<Seq<char>> {
    s.map_values(|x: &str| x@)
}

/// Position of the first nul byte of `bytes`, if any.
pub fn nul_position(bytes: &[u8]) -> (r: Option<usize>)
    ensures
        r matches Some(p) ==> is_first_nul(bytes@, p as int),
        r is None <==> !has_nul(bytes@),
{
    let mut i: usize = 0;
    while i < bytes.len()
        invariant
            i <= bytes@.len(),
            forall|j: int| 0 <= j < i ==> bytes@[j] != 0,
        decreases bytes.len() - i,
    {
        if bytes[i] == 0 {
            return Some(i);
        }
        i += 1;
    }
    None
}

/// The nul-terminated form of `bytes`, as the native library takes strings; a
/// nul inside `bytes` would cut the string short, so it is refused.
pub fn to_c_string(bytes: &[u8]) -> (r: Result<Vec<u8>, Error>)
    ensures
        r is Ok <==> !has_nul(bytes@),
        r matches Ok(v) ==> v@ == bytes@.push(0),
        r matches Err(e) ==> exists|p: int| is_first_nul(bytes@, p) && e == Error::Null(p as usize),
{
    match nul_position(bytes) {
        Some(p) => Err(Error::Null(p)),
        None => {
            let mut v: Vec<u8> = Vec::new();
            let mut i: usize = 0;
            while i < bytes.len()
                invariant
                    i <= bytes@.len(),
                    v@ == bytes@.subrange(0, i as int),
                decreases bytes.len() - i,
            {
                v.push(bytes[i]);
                i += 1;
            }
            v.push(0);
            assert(bytes@.subrange(0, bytes@.len() as int) == bytes@);
            Ok(v)
        },
    }
}

/// Reading a nul-terminated string back, up to its first nul, gives the bytes it
/// was made from.
pub proof fn lemma_c_string_round_trip(b: Seq<u8>)
    requires
        !has_nul(b),
    ensures
        is_first_nul(b.push(0), b.len() as int),
        b.push(0).subrange(0, b.len() as int) == b,
{
    assert(b.push(0).subrange(0, b.len() as int) =~= b);
}

/// The options handed to the native insertion: the tokens joined by single spaces.
pub fn join_options(opts: &[&str]) -> (r: String)
    ensures
        r@ == joined(str_views(opts@)),
{
    let ghost parts = str_views(opts@);
    let mut s = String::new();
    let mut i: usize = 0;
    while i < opts.len()
        invariant
            i <= opts@.len(),
            parts == str_views(opts@),
            s@ == joined(parts.take(i as int)),
        decreases opts.len() - i,
    {
        if i > 0 {
            s.append(" ");
        }
        s.append(opts[i]);
        proof {
            let t = parts.take(i as int + 1);
            assert(t.drop_last() =~= parts.take(i as int));
            assert(t.last() == opts@[i as int]@);
            if i == 0 {
                assert(s@ =~= joined(t));
            } else {
                reveal_strlit(" ");
                assert(" "@ =~= seq![' ']);
                assert(s@ =~= joined(t));
            }
        }
        i += 1;
    }
    assert(parts.take(opts@.len() as int) =~= parts);
    s
}

/// The UTF-8 encoding of two character sequences, one after the other, is the
/// encoding of the first followed by that of the second.
pub proof fn lemma_encode_utf8_concat(a: Seq<char>, b: Seq<char>)
    ensures
        encode_utf8(a + b) == encode_utf8(a) + encode_utf8(b),
    decreases a.len(),
{
    if a.len() == 0 {
        assert(a + b =~= b);
        assert(encode_utf8(a) + encode_utf8(b) =~= encode_utf8(b));
    } else {
        lemma_encode_utf8_concat(a.drop_first(), b);
        assert((a + b).drop_first() =~= a.drop_first() + b);
        assert((a + b)[0] == a[0]);
        assert(encode_utf8(a + b) =~= encode_utf8(a) + encode_utf8(b));
    }
}

/// A nul byte on either side of a concatenation is a nul byte of the whole.
pub proof fn lemma_has_nul_concat(x: Seq<u8>, y: Seq<u8>)
    ensures
        has_nul(x) || has_nul(y) ==> has_nul(x + y),
{
    if has_nul(x) {
        let p = choose|p: int| 0 <= p < x.len() && x[p] == 0;
        assert((x + y)[p] == 0);
    } else if has_nul(y) {
        let q = choose|q: int| 0 <= q < y.len() && y[q] == 0;
        assert((x + y)[x.len() + q] == 0);
    }
}

/// A nul byte in any one option token is a nul byte of the joined option string,
/// so the joined string is refused rather than cut short.
pub proof fn lemma_nul_in_option_is_kept(parts: Seq<Seq<char>>, i: int)
    requires
        0 <= i < parts.len(),
        has_nul(encode_utf8(parts[i])),
    ensures
        has_nul(encode_utf8(joined(parts))),
    decreases parts.len(),
{
    if parts.len() > 1 {
        let init = parts.drop_last();
        lemma_encode_utf8_concat(joined(init) + seq![' '], parts.last());
        lemma_encode_utf8_concat(joined(init), seq![' ']);
        if i == parts.len() - 1 {
            lemma_has_nul_concat(encode_utf8(joined(init) + seq![' ']), encode_utf8(parts.last()));
        } else {
            lemma_nul_in_option_is_kept(init, i);
            lemma_has_nul_concat(encode_utf8(joined(init)), encode_utf8(seq![' ']));
            lemma_has_nul_concat(encode_utf8(joined(init) + seq![' ']), encode_utf8(parts.last()));
        }
    }
}

/// The nul-terminated option string for a module insertion: the tokens joined by
/// single spaces, refused if it holds a nul byte.
pub fn options_c_string(opts: &[&str]) -> (r: Result<Vec<u8>, Error>)
    ensures
        r is Ok <==> !has_nul(encode_utf8(joined(str_views(opts@)))),
        r matches Ok(v) ==> v@ == encode_utf8(joined(str_views(opts@))).push(0),
        r matches Err(e) ==> exists|p: int|
            is_first_nul(encode_utf8(joined(str_views(opts@))), p) && e == Error::Null(p as usize),
        (exists|i: int| 0 <= i < opts@.len() && has_nul(encode_utf8(opts@[i]@))) ==> r is Err,
{
    let s = join_options(opts);
    let r = to_c_string(s.as_str().as_bytes());
    proof {
        if exists|i: int| 0 <= i < opts@.len() && has_nul(encode_utf8(opts@[i]@)) {
            let i = choose|i: int| 0 <= i < opts@.len() && has_nul(encode_utf8(opts@[i]@));
            lemma_nul_in_option_is_kept(str_views(opts@), i);
        }
    }
    r
}

} // verus!
