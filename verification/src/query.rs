//! What a user types: a model, optionally with a provider and a language.
use vstd::prelude::*;
use crate::model::text_of;
use crate::text::{
    chars_of, find, find_from, find_in, find_in_from, push_all, rfind, rfind_in, slice_chars,
    string_of,
};

verus! {

/// The text, or nothing where it is empty.
pub open spec fn non_empty(s: Seq<char>) -> Option<Seq<char>> {
    if s.len() == 0 {
        None
    } else {
        Some(s)
    }
}

/// What stands behind the last "@" of a query.
pub open spec fn query_rest(raw: Seq<char>) -> Option<Seq<char>> {
    match rfind(raw, seq!['@']) {
        Some(at) => Some(raw.skip(at + 1)),
        None => None,
    }
}

/// The model of a query: what stands before the last "@", or the whole.
pub open spec fn query_model(raw: Seq<char>) -> Seq<char> {
    match rfind(raw, seq!['@']) {
        Some(at) => raw.take(at),
        None => raw,
    }
}

/// The provider of a query: what stands between the last "@" and the first
/// ":" behind it, where that is not empty.
pub open spec fn query_provider(raw: Seq<char>) -> Option<Seq<char>> {
    match query_rest(raw) {
        Some(rest) => match find(rest, seq![':']) {
            Some(colon) => non_empty(rest.take(colon)),
            None => non_empty(rest),
        },
        None => None,
    }
}

/// The language of a query: what stands behind the first ":" after the last
/// "@", where that is not empty.
pub open spec fn query_lang(raw: Seq<char>) -> Option<Seq<char>> {
    match query_rest(raw) {
        Some(rest) => match find(rest, seq![':']) {
            Some(colon) => non_empty(rest.skip(colon + 1)),
            None => None,
        },
        None => None,
    }
}

/// The string of the characters, or nothing where there are none.
fn non_empty_string(s: &[char]) -> (r: Option<String>)
    ensures
        text_of(r) == non_empty(s@),
{
    if s.len() == 0 {
        None
    } else {
        Some(string_of(s))
    }
}

/// Splits a query such as "deepseek-r1@novita:curl" into the model, the
/// provider and the language.
pub fn parse_query(raw: &str) -> (r: (String, Option<String>, Option<String>))
    ensures
        r.0@ == query_model(raw@),
        text_of(r.1) == query_provider(raw@),
        text_of(r.2) == query_lang(raw@),
{
    let text = chars_of(raw);
    let mut at_sign: Vec<char> = Vec::new();
    at_sign.push('@');
    assert(at_sign@ == seq!['@']);
    let mut colon_sign: Vec<char> = Vec::new();
    colon_sign.push(':');
    assert(colon_sign@ == seq![':']);
    let n: usize = text.len();
    match rfind_in(text.as_slice(), at_sign.as_slice()) {
        Some(at) => {
            assert(at + 1 <= n);
            let model = slice_chars(text.as_slice(), 0, at);
            let rest = slice_chars(text.as_slice(), at + 1, n);
            assert(model@ == raw@.take(at as int));
            assert(rest@ == raw@.skip(at + 1));
            match find_in(rest.as_slice(), colon_sign.as_slice()) {
                Some(colon) => {
                    let p = slice_chars(rest.as_slice(), 0, colon);
                    let l = slice_chars(rest.as_slice(), colon + 1, rest.len());
                    assert(p@ == rest@.take(colon as int));
                    assert(l@ == rest@.skip(colon + 1));
                    (
                        string_of(model.as_slice()),
                        non_empty_string(p.as_slice()),
                        non_empty_string(l.as_slice()),
                    )
                },
                None => (string_of(model.as_slice()), non_empty_string(rest.as_slice()), None),
            }
        },
        None => (string_of(text.as_slice()), None, None),
    }
}

/// The text from `from` on with every occurrence of `pat` taken out, the
/// occurrences being looked for from left to right, each behind the one
/// before.
pub open spec fn removed_from(s: Seq<char>, pat: Seq<char>, from: int) -> Seq<char>
    decreases s.len() - from,
{
    if pat.len() == 0 || from < 0 || from > s.len() {
        Seq::empty()
    } else {
        match find_from(s, pat, from) {
            Some(i) => if from <= i && i + pat.len() <= s.len() {
                s.subrange(from, i) + removed_from(s, pat, i + pat.len())
            } else {
                Seq::empty()
            },
            None => s.skip(from),
        }
    }
}

/// The text with every occurrence of the non-empty `pat` taken out.
pub open spec fn removed(s: Seq<char>, pat: Seq<char>) -> Seq<char> {
    removed_from(s, pat, 0)
}

/// The position of the `n`-th occurrence of the character `c` at or after
/// `from`, or the length of the text where there are fewer.
pub open spec fn nth_char_from(s: Seq<char>, c: char, n: nat, from: int) -> int
    decreases s.len() - from,
{
    if from < 0 || from >= s.len() {
        s.len() as int
    } else if s[from] == c {
        if n <= 1 {
            from
        } else {
            nth_char_from(s, c, (n - 1) as nat, from + 1)
        }
    } else {
        nth_char_from(s, c, n, from + 1)
    }
}

/// What a model's name is without the words that tell variants apart.
pub open spec fn bare_name(name: Seq<char>) -> Seq<char> {
    removed(
        removed(
            removed(
                removed(removed(removed(name, "-Instruct"@), "-instruct"@), "-Chat"@),
                "-chat"@,
            ),
            "-FP8"@,
        ),
        "-fp8"@,
    )
}

/// The core of a model's identifier, under which its variants are looked
/// for: the name behind the last slash, without the words that tell variants
/// apart, cut before its third hyphen; with the organisation in front where
/// the identifier has one.
pub open spec fn core_name(model_id: Seq<char>) -> Seq<char> {
    let name = match rfind(model_id, seq!['/']) {
        Some(slash) => model_id.skip(slash + 1),
        None => model_id,
    };
    let base = bare_name(name);
    let core = base.take(nth_char_from(base, '-', 3, 0));
    match find(model_id, seq!['/']) {
        Some(slash) => model_id.take(slash) + seq!['/'] + core,
        None => core,
    }
}

/// Takes every occurrence of a word out of a text.
pub fn remove_all(s: &[char], word: &str) -> (r: Vec<char>)
    requires
        word@.len() > 0,
    ensures
        r@ == removed(s@, word@),
{
    let pat = chars_of(word);
    let n: usize = s.len();
    let mut out: Vec<char> = Vec::new();
    let mut pos: usize = 0;
    loop
        invariant
            pos <= n,
            n == s.len(),
            pat@ == word@,
            pat@.len() > 0,
            removed(s@, word@) == out@ + removed_from(s@, pat@, pos as int),
        decreases n - pos,
    {
        match find_in_from(s, pat.as_slice(), pos) {
            Some(i) => {
                proof {
                    crate::text::lemma_find_from(s@, pat@, pos as int);
                }
                let piece = slice_chars(s, pos, i);
                let ghost before = out@;
                push_all(&mut out, piece.as_slice());
                assert(before + (s@.subrange(pos as int, i as int) + removed_from(
                    s@,
                    pat@,
                    i + pat@.len(),
                )) =~= out@ + removed_from(s@, pat@, i + pat@.len()));
                pos = i + pat.len();
            },
            None => {
                let piece = slice_chars(s, pos, n);
                let ghost before = out@;
                push_all(&mut out, piece.as_slice());
                assert(s@.skip(pos as int) == s@.subrange(pos as int, n as int));
                return out;
            },
        }
    }
}

/// The position of the `n`-th occurrence of a character, or the length of
/// the text.
pub fn nth_char(s: &[char], c: char, n: usize) -> (r: usize)
    ensures
        r == nth_char_from(s@, c, n as nat, 0),
        r <= s.len(),
{
    let mut left: usize = n;
    let mut i: usize = 0;
    while i < s.len()
        invariant
            i <= s.len(),
            nth_char_from(s@, c, n as nat, 0) == nth_char_from(s@, c, left as nat, i as int),
        decreases s.len() - i,
    {
        if s[i] == c {
            if left <= 1 {
                return i;
            }
            left -= 1;
        }
        i += 1;
    }
    i
}

/// The core of a model's identifier, under which its variants are looked
/// for.
pub fn extract_core_name(model_id: &str) -> (r: String)
    ensures
        r@ == core_name(model_id@),
{
    let id = chars_of(model_id);
    let mut slash: Vec<char> = Vec::new();
    slash.push('/');
    assert(slash@ == seq!['/']);
    let n: usize = id.len();
    let name = match rfind_in(id.as_slice(), slash.as_slice()) {
        Some(p) => {
            assert(p + 1 <= n);
            let v = slice_chars(id.as_slice(), p + 1, n);
            assert(v@ == id@.skip(p + 1));
            v
        },
        None => {
            let v = slice_chars(id.as_slice(), 0, id.len());
            assert(v@ == id@);
            v
        },
    };
    proof {
        reveal_strlit("-Instruct");
        reveal_strlit("-instruct");
        reveal_strlit("-Chat");
        reveal_strlit("-chat");
        reveal_strlit("-FP8");
        reveal_strlit("-fp8");
    }
    let base = remove_all(name.as_slice(), "-Instruct");
    let base = remove_all(base.as_slice(), "-instruct");
    let base = remove_all(base.as_slice(), "-Chat");
    let base = remove_all(base.as_slice(), "-chat");
    let base = remove_all(base.as_slice(), "-FP8");
    let base = remove_all(base.as_slice(), "-fp8");
    let cut = nth_char(base.as_slice(), '-', 3);
    let core = slice_chars(base.as_slice(), 0, cut);
    assert(core@ == base@.take(cut as int));
    match find_in(id.as_slice(), slash.as_slice()) {
        Some(p) => {
            let mut out = slice_chars(id.as_slice(), 0, p);
            assert(out@ == id@.take(p as int));
            out.push('/');
            push_all(&mut out, core.as_slice());
            assert(out@ =~= id@.take(p as int) + seq!['/'] + core@);
            string_of(out.as_slice())
        },
        None => string_of(core.as_slice()),
    }
}

} // verus!
