//! Naming conversion for bindings in languages that use camelCase.

use vstd::prelude::*;
use crate::text::{split_on, split_by_char, push_char};

verus! {

/// The pieces of `ps` that are not empty, in order.
pub open spec fn non_empty(ps: Seq<Seq<char>>) -> Seq<Seq<char>>
    decreases ps.len(),
{
    if ps.len() == 0 {
        Seq::empty()
    } else if ps.last().len() == 0 {
        non_empty(ps.drop_last())
    } else {
        non_empty(ps.drop_last()).push(ps.last())
    }
}

/// `c` in upper case when it is an ASCII lower-case letter.
pub open spec fn ascii_upper(c: char) -> char {
    if 'a' <= c && c <= 'z' {
        ((c as u32) - 32) as char
    } else {
        c
    }
}

/// `p` with its first character in ASCII upper case.
pub open spec fn capitalized(p: Seq<char>) -> Seq<char> {
    if p.len() == 0 {
        p
    } else {
        seq![ascii_upper(p[0])] + p.drop_first()
    }
}

/// The first word as it is, then each following word capitalized.
pub open spec fn camel_join(words: Seq<Seq<char>>) -> Seq<char>
    decreases words.len(),
{
    if words.len() == 0 {
        Seq::empty()
    } else if words.len() == 1 {
        words[0]
    } else {
        camel_join(words.drop_last()) + capitalized(words.last())
    }
}

/// The camelCase form of a snake_case name: the words between underscores
/// (empty ones ignored), the first as it is and the others capitalized.
pub open spec fn camel_case(snake: Seq<char>) -> Seq<char> {
    camel_join(non_empty(split_on(snake, '_')))
}

/// `c` in ASCII upper case.
fn upper_ascii(c: char) -> (r: char)
    ensures
        r == ascii_upper(c),
{
    if 'a' <= c && c <= 'z' {
        ((c as u8) - 32) as char
    } else {
        c
    }
}

/// Converts a snake_case identifier to camelCase: `with_file` becomes
/// `withFile`; empty words are ignored and a single word is unchanged.
pub fn convert_to_camel_case(snake_name: &str) -> (r: String)
    ensures
        r@ == camel_case(snake_name@),
{
    let pieces = split_by_char(snake_name, '_');
    let ghost pv = pieces.deep_view();
    let mut words: Vec<String> = Vec::new();
    let mut i: usize = 0;
    while i < pieces.len()
        invariant
            pv == pieces.deep_view(),
            i <= pv.len(),
            words.deep_view() == non_empty(pv.subrange(0, i as int)),
        decreases pv.len() - i,
    {
        assert(pv.subrange(0, i + 1).drop_last() =~= pv.subrange(0, i as int));
        assert(pv[i as int] == pieces@[i as int]@);
        if pieces[i].unicode_len() > 0 {
            let ghost before = words.deep_view();
            words.push(pieces[i].as_str().to_owned());
            assert(words.deep_view() =~= before.push(pv[i as int]));
        }
        i = i + 1;
    }
    assert(pv.subrange(0, pv.len() as int) =~= pv);
    let ghost wv = words.deep_view();
    let mut out = String::new();
    let mut k: usize = 0;
    assert(wv.subrange(0, 0) =~= Seq::<Seq<char>>::empty());
    while k < words.len()
        invariant
            wv == words.deep_view(),
            k <= wv.len(),
            out@ == camel_join(wv.subrange(0, k as int)),
        decreases wv.len() - k,
    {
        let w = words[k].as_str();
        assert(wv[k as int] == w@);
        assert(wv.subrange(0, k + 1).drop_last() =~= wv.subrange(0, k as int));
        assert(wv.subrange(0, k + 1).last() == w@);
        let n = w.unicode_len();
        let ghost before = out@;
        let mut j: usize = 0;
        if k == 0 {
            assert(wv.subrange(0, 1) =~= seq![w@]);
        } else if n > 0 {
            push_char(&mut out, upper_ascii(w.get_char(0)));
            j = 1;
        }
        let ghost start = j;
        while j < n
            invariant
                n == w@.len(),
                start <= j <= n,
                out@ == before + (if start == 1 { seq![ascii_upper(w@[0])] } else { Seq::empty() })
                    + w@.subrange(start as int, j as int),
            decreases n - j,
        {
            push_char(&mut out, w.get_char(j));
            j = j + 1;
            assert(out@ =~= before + (if start == 1 { seq![ascii_upper(w@[0])] } else { Seq::empty() })
                + w@.subrange(start as int, j as int));
        }
        proof {
            if k == 0 {
                assert(w@.subrange(0, n as int) =~= w@);
                assert(out@ =~= w@);
            } else if n > 0 {
                assert(w@.subrange(1, n as int) =~= w@.drop_first());
                assert(out@ =~= before + capitalized(w@));
            } else {
                assert(w@.subrange(0, 0) =~= Seq::<char>::empty());
                assert(out@ =~= before + capitalized(w@));
            }
        }
        k = k + 1;
    }
    assert(wv.subrange(0, wv.len() as int) =~= wv);
    out
}

} // verus!
