//! Substitution of `{{dotted.path}}` tokens against the data document.

use vstd::prelude::*;
use regex::Regex;
use crate::text::{chars_of, split, split_spec, strip, strip_spec, texts};
use crate::value::{descend, Value};

verus! {

/// The pieces of `text` that lie between the matches of the regular
/// expression `pattern`, in order; nothing where `pattern` does not compile.
pub uninterp spec fn regex_pieces(pattern: Seq<char>, text: Seq<char>) -> Option<Seq<Seq<char>>>;

/// The successive non-overlapping matches of the regular expression `pattern`
/// in `text`, in order; nothing where `pattern` does not compile.
pub uninterp spec fn regex_matches(pattern: Seq<char>, text: Seq<char>) -> Option<Seq<Seq<char>>>;

/// `Regex::new` on `pattern`, then `Regex::split` on `text`: the substrings
/// of `text` that no match covers, as owned strings. The contract only names
/// that result; a pattern that does not compile gives `None`.
#[verifier::external_body]
fn split_by(pattern: &str, text: &str) -> (r: Option<Vec<String>>)
    ensures
        match r {
            Some(pieces) => regex_pieces(pattern@, text@) == Some(texts(pieces@)),
            None => regex_pieces(pattern@, text@) is None,
        },
{
    match Regex::new(pattern) {
        Ok(re) => Some(re.split(text).map(|piece| piece.to_string()).collect()),
        Err(_) => None,
    }
}

/// `Regex::new` on `pattern`, then `Regex::find_iter` on `text`: the text of
/// each match, as owned strings. The contract only names that result; a
/// pattern that does not compile gives `None`.
#[verifier::external_body]
fn matches_of(pattern: &str, text: &str) -> (r: Option<Vec<String>>)
    ensures
        match r {
            Some(found) => regex_matches(pattern@, text@) == Some(texts(found@)),
            None => regex_matches(pattern@, text@) is None,
        },
{
    match Regex::new(pattern) {
        Ok(re) => Some(re.find_iter(text).map(|m| m.as_str().to_string()).collect()),
        Err(_) => None,
    }
}

/// The regular expression of a token: two opening braces, a dotted path of
/// letters, digits and underscores with optional white space around it, two
/// closing braces.
pub open spec fn token_pattern_spec() -> Seq<char> {
    "\\{\\{\\s*([a-zA-Z0-9_.]+)\\s*\\}\\}"@
}

/// A character that may stand in a path.
pub open spec fn is_path_char(c: char) -> bool {
    ('a' <= c && c <= 'z') || ('A' <= c && c <= 'Z') || ('0' <= c && c <= '9') || c == '_' || c
        == '.'
}

/// The first position from `i` on whose character is a path character, if
/// `want` holds, or is none, if it does not; the length of `s` if there is
/// no such position.
pub open spec fn scan(s: Seq<char>, i: int, want: bool) -> int
    decreases s.len() - i,
{
    if 0 <= i < s.len() && is_path_char(s[i]) != want {
        scan(s, i + 1, want)
    } else {
        i
    }
}

/// The path that a token holds: its first run of path characters.
pub open spec fn token_path(token: Seq<char>) -> Seq<char> {
    let a = scan(token, 0, true);
    let b = scan(token, a, false);
    token.subrange(a, b)
}

/// The text found in `data` under the dotted path `path`: the scalar there as
/// text, and the empty text where the path leads nowhere or to no scalar.
pub open spec fn value_text(data: Value, path: Seq<char>) -> Seq<char> {
    match descend(data, split_spec(path, '.')) {
        Some(v) => v.scalar_text(),
        None => Seq::empty(),
    }
}

/// The array found in `data` under the expression `raw`, a dotted path that
/// braces and blanks may surround.
pub open spec fn array_at(data: Value, raw: Seq<char>) -> Option<Vec<Value>> {
    match descend(data, split_spec(strip_spec(raw), '.')) {
        Some(Value::Array(items)) => Some(items),
        _ => None,
    }
}

/// The first `k` pieces, each followed by the value of the token after it.
/// A piece or a token that is not there counts as empty.
pub open spec fn weave(pieces: Seq<Seq<char>>, tokens: Seq<Seq<char>>, data: Value, k: nat) -> Seq<
    char,
>
    decreases k,
{
    if k == 0 {
        Seq::empty()
    } else {
        let piece = if k - 1 < pieces.len() {
            pieces[k - 1]
        } else {
            Seq::empty()
        };
        let value = if k - 1 < tokens.len() {
            value_text(data, token_path(tokens[k - 1]))
        } else {
            Seq::empty()
        };
        weave(pieces, tokens, data, (k - 1) as nat) + piece + value
    }
}

/// All pieces and token values, woven together.
pub open spec fn woven(pieces: Seq<Seq<char>>, tokens: Seq<Seq<char>>, data: Value) -> Seq<char> {
    weave(
        pieces,
        tokens,
        data,
        if pieces.len() >= tokens.len() {
            pieces.len()
        } else {
            tokens.len()
        },
    )
}

/// `template` with every token replaced by the text under its path.
pub open spec fn render_spec(template: Seq<char>, data: Value) -> Seq<char> {
    match (
        regex_pieces(token_pattern_spec(), template),
        regex_matches(token_pattern_spec(), template),
    ) {
        (Some(pieces), Some(tokens)) => woven(pieces, tokens, data),
        _ => template,
    }
}

/// A scan from `i` stops at `j` where every character between them is
/// passed over and the one at `j`, if there is one, is not.
pub proof fn lemma_scan_stops(s: Seq<char>, i: int, j: int, want: bool)
    requires
        0 <= i <= j <= s.len(),
        forall|k: int| i <= k < j ==> is_path_char(#[trigger] s[k]) != want,
        j < s.len() ==> is_path_char(s[j]) == want,
    ensures
        scan(s, i, want) == j,
    decreases j - i,
{
    if i < j {
        lemma_scan_stops(s, i + 1, j, want);
    }
}

/// The path of a token is the path between its braces: what stands before
/// it and after it, braces and white space, holds no path character.
pub proof fn lemma_token_path(before: Seq<char>, path: Seq<char>, after: Seq<char>)
    requires
        forall|k: int| 0 <= k < before.len() ==> !is_path_char(#[trigger] before[k]),
        forall|k: int| 0 <= k < path.len() ==> is_path_char(#[trigger] path[k]),
        path.len() > 0,
        after.len() > 0 ==> !is_path_char(after[0]),
    ensures
        token_path(before + path + after) == path,
{
    let token = before + path + after;
    let a = before.len() as int;
    let b = a + path.len();
    assert forall|k: int| 0 <= k < a implies is_path_char(#[trigger] token[k]) != true by {
        assert(token[k] == before[k]);
    }
    assert(token[a] == path[0]);
    lemma_scan_stops(token, 0, a, true);
    assert forall|k: int| a <= k < b implies is_path_char(#[trigger] token[k]) != false by {
        assert(token[k] == path[k - a]);
    }
    if b < token.len() {
        assert(token[b] == after[0]);
    }
    lemma_scan_stops(token, a, b, false);
    assert(token.subrange(a, b) =~= path);
}

/// A template that is one token and nothing else becomes the text under
/// the token's path, which is empty where the path leads nowhere.
pub proof fn lemma_single_token(token: Seq<char>, data: Value)
    ensures
        woven(seq![Seq::empty(), Seq::empty()], seq![token], data) == value_text(
            data,
            token_path(token),
        ),
        descend(data, split_spec(token_path(token), '.')) is None ==> woven(
            seq![Seq::empty(), Seq::empty()],
            seq![token],
            data,
        ) == Seq::<char>::empty(),
{
    let pieces = seq![Seq::<char>::empty(), Seq::<char>::empty()];
    let tokens = seq![token];
    reveal_with_fuel(weave, 3);
    assert(weave(pieces, tokens, data, 0) =~= Seq::<char>::empty());
    assert(weave(pieces, tokens, data, 1) =~= value_text(data, token_path(token)));
    assert(weave(pieces, tokens, data, 2) =~= value_text(data, token_path(token)));
}

fn path_char(c: char) -> (r: bool)
    ensures
        r == is_path_char(c),
{
    ('a' <= c && c <= 'z') || ('A' <= c && c <= 'Z') || ('0' <= c && c <= '9') || c == '_' || c
        == '.'
}

/// Expands `{{path}}` tokens and looks paths up in the data document.
pub struct Interpolator;

impl Interpolator {
    /// The regular expression that finds the tokens.
    pub fn token_pattern() -> (p: &'static str)
        ensures
            p@ == token_pattern_spec(),
    {
        "\\{\\{\\s*([a-zA-Z0-9_.]+)\\s*\\}\\}"
    }

    /// The path inside a token.
    pub fn path_of_token(token: &str) -> (r: String)
        ensures
            r@ == token_path(token@),
    {
        let cs = chars_of(token);
        let mut a: usize = 0;
        while a < cs.len() && !path_char(cs[a])
            invariant
                cs@ == token@,
                a <= cs.len(),
                scan(token@, 0, true) == scan(token@, a as int, true),
            decreases cs.len() - a,
        {
            a += 1;
        }
        let mut b: usize = a;
        while b < cs.len() && path_char(cs[b])
            invariant
                cs@ == token@,
                a <= b <= cs.len(),
                scan(token@, a as int, false) == scan(token@, b as int, false),
            decreases cs.len() - b,
        {
            b += 1;
        }
        String::from_str(token.substring_char(a, b))
    }

    /// The text under the dotted path `key`, empty where there is none.
    pub fn get_value_from_obj(data: &Value, key: &str) -> (r: String)
        ensures
            r@ == value_text(*data, key@),
    {
        let parts = split(key, '.');
        match data.get_path(&parts) {
            Some(v) => v.to_text(),
            None => String::new(),
        }
    }

    /// The text under the dotted path `path`, if it is not empty.
    pub fn get_value_by_path(data: &Value, path: &str) -> (r: Option<String>)
        ensures
            match r {
                Some(s) => s@ == value_text(*data, path@) && s@.len() > 0,
                None => value_text(*data, path@).len() == 0,
            },
    {
        let s = Self::get_value_from_obj(data, path);
        if s.as_str().is_empty() {
            None
        } else {
            Some(s)
        }
    }

    /// The array under the expression `raw_path`, which may be wrapped in
    /// braces and blanks as in `{{order.items}}`.
    pub fn get_array_by_path<'a>(data: &'a Value, raw_path: &str) -> (r: Option<&'a Vec<Value>>)
        ensures
            match r {
                Some(items) => array_at(*data, raw_path@) == Some(*items),
                None => array_at(*data, raw_path@) is None,
            },
    {
        let path = strip(raw_path);
        let parts = split(path.as_str(), '.');
        match data.get_path(&parts) {
            Some(v) => v.as_array(),
            None => None,
        }
    }

    /// Weaves the pieces of a template and the values of its tokens into one
    /// text: piece, value, piece, value, and so on.
    pub fn assemble(pieces: &Vec<String>, tokens: &Vec<String>, data: &Value) -> (out: String)
        ensures
            out@ == woven(texts(pieces@), texts(tokens@), *data),
    {
        let n = if pieces.len() >= tokens.len() {
            pieces.len()
        } else {
            tokens.len()
        };
        let mut out = String::new();
        let mut k: usize = 0;
        while k < n
            invariant
                k <= n,
                n == if pieces.len() >= tokens.len() {
                    pieces.len()
                } else {
                    tokens.len()
                },
                out@ == weave(texts(pieces@), texts(tokens@), *data, k as nat),
            decreases n - k,
        {
            if k < pieces.len() {
                out.append(pieces[k].as_str());
            }
            if k < tokens.len() {
                let path = Self::path_of_token(tokens[k].as_str());
                let value = Self::get_value_from_obj(data, path.as_str());
                out.append(value.as_str());
            }
            k += 1;
        }
        out
    }

    /// Replaces every token of `template` by the text under its path in
    /// `data`. A path that leads nowhere leaves nothing in its place.
    pub fn render(template: &str, data: &Value) -> (out: String)
        ensures
            out@ == render_spec(template@, *data),
    {
        let pattern = Self::token_pattern();
        match (split_by(pattern, template), matches_of(pattern, template)) {
            (Some(pieces), Some(tokens)) => Self::assemble(&pieces, &tokens, data),
            _ => String::from_str(template),
        }
    }
}

} // verus!
