//! Whitespace tokenization of a text line into numeric token ids.
//!
//! The id scheme is a placeholder for a real vocabulary: each token is the
//! 64-bit hash of its UTF-8 bytes. The engine only ever reduces an id modulo
//! the vocabulary size, so the identifier space is unconstrained.

use std::collections::hash_map::DefaultHasher;
use std::hash::Hasher;
use vstd::prelude::*;
use vstd::std_specs::hash::DefaultHasherAdditionalSpecFns;
use vstd::utf8::encode_utf8;

verus! {

/// Names the result of `char::is_whitespace`: whether a character has the
/// Unicode white-space property. The full character table is not restated
/// here; the splitting logic is specified relative to this predicate.
pub uninterp spec fn is_white(c: char) -> bool;

/// Relies on `char::is_whitespace`: the result is the Unicode white-space
/// property, a function of the character alone.
pub assume_specification[ char::is_whitespace ](c: char) -> (r: bool)
    ensures
        r == is_white(c),
;

/// Whitespace splitting, written as a left-to-right scan: `cur` is the run
/// of non-whitespace characters read but not yet closed, `done` the tokens
/// already closed. A whitespace character closes the current run (if any);
/// the end of the text closes the last run.
pub open spec fn ws_split(rest: Seq<char>, cur: Seq<char>, done: Seq<Seq<char>>) -> Seq<Seq<char>>
    decreases rest.len(),
{
    if rest.len() == 0 {
        if cur.len() == 0 {
            done
        } else {
            done.push(cur)
        }
    } else if is_white(rest[0]) {
        if cur.len() == 0 {
            ws_split(rest.drop_first(), Seq::empty(), done)
        } else {
            ws_split(rest.drop_first(), Seq::empty(), done.push(cur))
        }
    } else {
        ws_split(rest.drop_first(), cur.push(rest[0]), done)
    }
}

/// The whitespace-separated tokens of a character sequence: the maximal
/// runs of non-whitespace characters, in order.
pub open spec fn ws_tokens(s: Seq<char>) -> Seq<Seq<char>> {
    ws_split(s, Seq::empty(), Seq::empty())
}

/// The numeric id assigned to one token: the 64-bit hash of its UTF-8
/// bytes, narrowed to `usize`.
pub open spec fn token_id(t: Seq<char>) -> usize {
    DefaultHasher::spec_finish(seq![encode_utf8(t)]) as usize
}

/// Relies on `str::chars`: the view of a string slice is exactly the
/// sequence of its characters.
#[verifier::external_body]
fn chars_of(s: &str) -> (r: Vec<char>)
    ensures
        r@ == s@,
{
    s.chars().collect()
}

/// Relies on `String`'s `FromIterator<char>`: collecting characters yields
/// the string whose view is that character sequence.
#[verifier::external_body]
fn string_of(cs: &Vec<char>) -> (r: String)
    ensures
        r@ == cs@,
{
    cs.iter().copied().collect()
}

/// Hashes one token's UTF-8 bytes into its id.
fn hash_token(token: &Vec<char>) -> (id: usize)
    ensures
        id == token_id(token@),
{
    let s = string_of(token);
    let bytes = s.as_str().as_bytes();
    let mut h = DefaultHasher::new();
    h.write(bytes);
    let v = h.finish();
    v as usize
}

/// Splits the input text on Unicode whitespace and assigns each token a
/// numeric id: the hash of its UTF-8 bytes.
pub fn tokenize(text: &str) -> (ids: Vec<usize>)
    ensures
        ids@.len() == ws_tokens(text@).len(),
        forall|j: int| 0 <= j < ids@.len() ==> ids@[j] == token_id(ws_tokens(text@)[j]),
{
    let chars = chars_of(text);
    let mut ids: Vec<usize> = Vec::new();
    let mut cur: Vec<char> = Vec::new();
    let ghost mut done: Seq<Seq<char>> = Seq::empty();
    let mut i: usize = 0;
    proof {
        assert(chars@.skip(0) =~= chars@);
    }
    while i < chars.len()
        invariant
            0 <= i <= chars@.len(),
            chars@ == text@,
            ws_split(chars@.skip(i as int), cur@, done) == ws_tokens(text@),
            ids@.len() == done.len(),
            forall|j: int| 0 <= j < done.len() ==> ids@[j] == token_id(done[j]),
        decreases chars@.len() - i,
    {
        let c = chars[i];
        let ghost rest = chars@.skip(i as int);
        proof {
            assert(rest[0] == c);
            assert(rest.drop_first() =~= chars@.skip(i as int + 1));
        }
        if c.is_whitespace() {
            if cur.len() > 0 {
                proof {
                    assert(ws_split(rest, cur@, done) == ws_split(
                        chars@.skip(i as int + 1),
                        Seq::empty(),
                        done.push(cur@),
                    ));
                }
                let id = hash_token(&cur);
                ids.push(id);
                proof {
                    done = done.push(cur@);
                }
                cur = Vec::new();
            } else {
                proof {
                    assert(ws_split(rest, cur@, done) == ws_split(
                        chars@.skip(i as int + 1),
                        Seq::empty(),
                        done,
                    ));
                    assert(cur@ =~= Seq::<char>::empty());
                }
            }
        } else {
            proof {
                assert(ws_split(rest, cur@, done) == ws_split(
                    chars@.skip(i as int + 1),
                    cur@.push(c),
                    done,
                ));
            }
            cur.push(c);
        }
        i = i + 1;
    }
    proof {
        assert(chars@.skip(i as int) =~= Seq::<char>::empty());
    }
    if cur.len() > 0 {
        let id = hash_token(&cur);
        ids.push(id);
        proof {
            done = done.push(cur@);
        }
    }
    ids
}

} // verus!
