//! Token-level pattern matching on types, as the `#[worker]` attribute uses
//! it to recognise `Receiver<@>`, `impl Fn(@)` and the like.
//!
//! A token stream is flattened to a list of strings: an identifier, a
//! punctuation mark or a literal gives its text, and a delimited group gives
//! its opening delimiter, the text of its contents and its closing delimiter.
//! A pattern is such a list with exactly one hole, the token `@`; a value
//! matches when it starts with the tokens before the hole and ends with the
//! tokens after it, and what lies between fills the hole.

use vstd::prelude::*;

verus! {

/// The delimiter of a group of tokens.
#[derive(Clone, Copy, PartialEq, Eq, Debug)]
pub enum Delimiter {
    /// `( ... )`
    Parenthesis,
    /// `{ ... }`
    Brace,
    /// `[ ... ]`
    Bracket,
    /// An invisible delimiter.
    Invisible,
}

/// One token tree of a stream, by its text.
#[derive(Debug)]
pub enum TokenTree {
    /// A delimited group, with the text of the stream inside it.
    Group { delimiter: Delimiter, inner: String },
    /// An identifier.
    Ident(String),
    /// A punctuation character.
    Punct(String),
    /// A literal.
    Literal(String),
}

/// Why a pattern cannot be matched.
#[derive(Clone, Copy, PartialEq, Eq, Debug)]
pub enum PatternError {
    /// The pattern does not hold exactly one hole.
    NotOneHole,
}

/// The texts of a list of strings.
pub open spec fn texts(v: Seq<String>) -> Seq<Seq<char>> {
    v.map_values(|s: String| s@)
}

/// The text of the opening delimiter.
pub open spec fn open_text(d: Delimiter) -> Seq<char> {
    match d {
        Delimiter::Parenthesis => seq!['('],
        Delimiter::Brace => seq!['{'],
        Delimiter::Bracket => seq!['['],
        Delimiter::Invisible => Seq::empty(),
    }
}

/// The text of the closing delimiter.
pub open spec fn close_text(d: Delimiter) -> Seq<char> {
    match d {
        Delimiter::Parenthesis => seq![')'],
        Delimiter::Brace => seq!['}'],
        Delimiter::Bracket => seq![']'],
        Delimiter::Invisible => Seq::empty(),
    }
}

/// The tokens that one tree flattens to.
pub open spec fn tree_tokens(t: TokenTree) -> Seq<Seq<char>> {
    match t {
        TokenTree::Group { delimiter, inner } => seq![open_text(delimiter), inner@, close_text(delimiter)],
        TokenTree::Ident(s) => seq![s@],
        TokenTree::Punct(s) => seq![s@],
        TokenTree::Literal(s) => seq![s@],
    }
}

/// The tokens that a stream flattens to, tree after tree.
pub open spec fn flat_tokens(trees: Seq<TokenTree>) -> Seq<Seq<char>>
    decreases trees.len(),
{
    if trees.len() == 0 {
        Seq::empty()
    } else {
        flat_tokens(trees.drop_last()) + tree_tokens(trees.last())
    }
}

/// The hole of a pattern.
pub open spec fn hole() -> Seq<char> {
    seq!['@']
}

/// `h` is the one and only hole of `p`.
pub open spec fn single_hole_at(p: Seq<Seq<char>>, h: int) -> bool {
    &&& 0 <= h < p.len()
    &&& p[h] == hole()
    &&& forall|k: int| 0 <= k < p.len() && k != h ==> #[trigger] p[k] != hole()
}

/// `p` holds exactly one hole.
pub open spec fn has_single_hole(p: Seq<Seq<char>>) -> bool {
    exists|h: int| single_hole_at(p, h)
}

/// The position of the hole of `p`.
pub open spec fn hole_index(p: Seq<Seq<char>>) -> int {
    choose|h: int| single_hole_at(p, h)
}

/// The tokens before the hole.
pub open spec fn before_hole(p: Seq<Seq<char>>) -> Seq<Seq<char>> {
    p.take(hole_index(p))
}

/// The tokens after the hole.
pub open spec fn after_hole(p: Seq<Seq<char>>) -> Seq<Seq<char>> {
    p.skip(hole_index(p) + 1)
}

/// `v` and `front` agree on every position that both have, from the front.
pub open spec fn agree_from_front(v: Seq<Seq<char>>, front: Seq<Seq<char>>) -> bool {
    forall|i: int| 0 <= i < v.len() && i < front.len() ==> #[trigger] v[i] == front[i]
}

/// The `i`-th tokens from the back of `v` and of `back` are equal.
pub open spec fn agree_back_at(v: Seq<Seq<char>>, back: Seq<Seq<char>>, i: int) -> bool {
    v[v.len() - 1 - i] == back[back.len() - 1 - i]
}

/// `v` and `back` agree on every position that both have, from the back.
pub open spec fn agree_from_back(v: Seq<Seq<char>>, back: Seq<Seq<char>>) -> bool {
    forall|i: int| 0 <= i < v.len() && i < back.len() ==> #[trigger] agree_back_at(v, back, i)
}

/// The value matches the single-hole pattern: its front agrees with the
/// tokens before the hole and its back with the tokens after it.
pub open spec fn hole_matches(p: Seq<Seq<char>>, v: Seq<Seq<char>>) -> bool {
    agree_from_front(v, before_hole(p)) && agree_from_back(v, after_hole(p))
}

/// What fills the hole when the value matches.
pub open spec fn hole_contents(p: Seq<Seq<char>>, v: Seq<Seq<char>>) -> Seq<Seq<char>> {
    v.subrange(before_hole(p).len() as int, v.len() - after_hole(p).len())
}

/// A match leaves room for what is around the hole. (Where it does not, the
/// value is shorter than the pattern's fixed tokens, and the match cannot
/// cut out the tokens in the hole.)
pub open spec fn match_in_bounds(p: Seq<Seq<char>>, v: Seq<Seq<char>>) -> bool {
    has_single_hole(p) && hole_matches(p, v) ==> before_hole(p).len() + after_hole(p).len() <= v.len()
}

/// The result of matching one pattern.
pub open spec fn spec_pattern_match_hole(p: Seq<Seq<char>>, v: Seq<Seq<char>>) -> Result<
    Option<Seq<Seq<char>>>,
    PatternError,
> {
    if !has_single_hole(p) {
        Err(PatternError::NotOneHole)
    } else if hole_matches(p, v) {
        Ok(Some(hole_contents(p, v)))
    } else {
        Ok(None)
    }
}

/// Matching `p` settles the search: it fails or it matches.
pub open spec fn decides(p: Seq<Seq<char>>, v: Seq<Seq<char>>) -> bool {
    !has_single_hole(p) || hole_matches(p, v)
}

/// The patterns are tried in order until one settles the search.
pub open spec fn spec_pattern_match_holes(ps: Seq<Seq<Seq<char>>>, v: Seq<Seq<char>>) -> Result<
    Option<Seq<Seq<char>>>,
    PatternError,
>
    decreases ps.len(),
{
    if ps.len() == 0 {
        Ok(None)
    } else if decides(ps[0], v) {
        spec_pattern_match_hole(ps[0], v)
    } else {
        spec_pattern_match_holes(ps.drop_first(), v)
    }
}

/// Every pattern that the search tries leaves room for what is around its hole.
pub open spec fn tried_in_bounds(ps: Seq<Seq<Seq<char>>>, v: Seq<Seq<char>>) -> bool
    decreases ps.len(),
{
    ps.len() == 0 || (match_in_bounds(ps[0], v) && (!decides(ps[0], v) ==> tried_in_bounds(
        ps.drop_first(),
        v,
    )))
}

/// The text of a string, as a new string.
fn text_of(s: &str) -> (r: String)
    ensures
        r@ == s@,
{
    String::from_str(s)
}

/// The texts of the delimiters of a group.
fn delimiter_texts(d: Delimiter) -> (r: (String, String))
    ensures
        r.0@ == open_text(d),
        r.1@ == close_text(d),
{
    match d {
        Delimiter::Parenthesis => {
            proof {
                reveal_strlit("(");
                reveal_strlit(")");
            }
            (text_of("("), text_of(")"))
        },
        Delimiter::Brace => {
            proof {
                reveal_strlit("{");
                reveal_strlit("}");
            }
            (text_of("{"), text_of("}"))
        },
        Delimiter::Bracket => {
            proof {
                reveal_strlit("[");
                reveal_strlit("]");
            }
            (text_of("["), text_of("]"))
        },
        Delimiter::Invisible => {
            proof {
                reveal_strlit("");
            }
            (text_of(""), text_of(""))
        },
    }
}

/// Flattens a token stream to the texts of its tokens.
pub fn tokenize(trees: &Vec<TokenTree>) -> (r: Vec<String>)
    ensures
        texts(r@) == flat_tokens(trees@),
{
    let mut r: Vec<String> = Vec::new();
    let n = trees.len();
    for i in 0..n
        invariant
            n == trees@.len(),
            texts(r@) == flat_tokens(trees@.take(i as int)),
    {
        let ghost before = r@;
        let t = &trees[i];
        match t {
            TokenTree::Group { delimiter, inner } => {
                let (open, close) = delimiter_texts(*delimiter);
                r.push(open);
                r.push(inner.clone());
                r.push(close);
            },
            TokenTree::Ident(s) => r.push(s.clone()),
            TokenTree::Punct(s) => r.push(s.clone()),
            TokenTree::Literal(s) => r.push(s.clone()),
        }
        proof {
            assert(texts(r@) =~= texts(before) + tree_tokens(*t));
        }
        proof {
            assert(trees@.take(i + 1).drop_last() =~= trees@.take(i as int));
        }
    }
    proof {
        assert(trees@.take(n as int) =~= trees@);
    }
    r
}

/// Whether a token is the hole.
fn is_hole(s: &String) -> (r: bool)
    ensures
        r == (s@ == hole()),
{
    let t = s.as_str();
    if t.unicode_len() == 1 {
        let c = t.get_char(0);
        if c == '@' {
            assert(t@ =~= hole());
            true
        } else {
            false
        }
    } else {
        false
    }
}

/// Finds the single hole of a pattern.
fn find_single_hole(pattern: &Vec<String>) -> (r: Option<usize>)
    ensures
        match r {
            Some(h) => single_hole_at(texts(pattern@), h as int),
            None => !has_single_hole(texts(pattern@)),
        },
{
    let ghost p = texts(pattern@);
    let n = pattern.len();
    let mut found: Option<usize> = None;
    let mut i: usize = 0;
    while i < n
        invariant
            n == pattern@.len(),
            p == texts(pattern@),
            i <= n,
            match found {
                None => forall|k: int| 0 <= k < i ==> #[trigger] p[k] != hole(),
                Some(h) => h < i && p[h as int] == hole() && forall|k: int|
                    0 <= k < i && k != h ==> #[trigger] p[k] != hole(),
            },
        decreases n - i,
    {
        if is_hole(&pattern[i]) {
            match found {
                None => {
                    found = Some(i);
                },
                Some(h) => {
                    proof {
                        assert forall|g: int| !single_hole_at(p, g) by {
                            if single_hole_at(p, g) {
                                if g == h as int {
                                    assert(p[i as int] != hole());
                                } else {
                                    assert(p[h as int] != hole());
                                }
                            }
                        }
                    }
                    return None;
                },
            }
        }
        i = i + 1;
    }
    match found {
        Some(h) => Some(h),
        None => {
            proof {
                assert forall|g: int| !single_hole_at(p, g) by {
                    if single_hole_at(p, g) {
                        assert(p[g] != hole());
                    }
                }
            }
            None
        },
    }
}

/// Matches `value` against a pattern with one hole and returns the tokens in
/// the hole; `None` when the value does not match; an error when the pattern
/// does not hold exactly one hole.
pub fn pattern_match_hole(pattern: &Vec<String>, value: &Vec<String>) -> (r: Result<
    Option<Vec<String>>,
    PatternError,
>)
    requires
        match_in_bounds(texts(pattern@), texts(value@)),
    ensures
        match (r, spec_pattern_match_hole(texts(pattern@), texts(value@))) {
            (Err(e), Err(f)) => e == f,
            (Ok(None), Ok(None)) => true,
            (Ok(Some(tokens)), Ok(Some(expected))) => texts(tokens@) == expected,
            _ => false,
        },
{
    let ghost p = texts(pattern@);
    let ghost v = texts(value@);
    let h = match find_single_hole(pattern) {
        Some(h) => h,
        None => {
            return Err(PatternError::NotOneHole);
        },
    };
    proof {
        assert(hole_index(p) == h as int);
    }
    let n = pattern.len();
    let m = value.len();
    let before_len = h;
    let after_len = n - h - 1;
    let ghost front = before_hole(p);
    let ghost back = after_hole(p);
    // the front of the value against the tokens before the hole
    let mut front_ok = true;
    let mut i: usize = 0;
    while i < m && i < before_len
        invariant
            m == v.len(),
            n == p.len(),
            p == texts(pattern@),
            v == texts(value@),
            before_len == h,
            h < n,
            front == p.take(h as int),
            front_ok == (forall|k: int| 0 <= k < i ==> #[trigger] v[k] == front[k]),
            i <= m,
            i <= before_len,
        decreases m - i,
    {
        proof {
            assert(v[i as int] == value@[i as int]@);
            assert(front[i as int] == pattern@[i as int]@);
        }
        if !(value[i] == pattern[i]) {
            front_ok = false;
        }
        i = i + 1;
    }
    // the back of the value against the tokens after the hole
    let mut back_ok = true;
    let mut j: usize = 0;
    while j < m && j < after_len
        invariant
            m == v.len(),
            n == p.len(),
            p == texts(pattern@),
            v == texts(value@),
            after_len == n - h - 1,
            h < n,
            back == p.skip(h + 1),
            back_ok == (forall|k: int| 0 <= k < j ==> #[trigger] agree_back_at(v, back, k)),
            j <= m,
            j <= after_len,
        decreases m - j,
    {
        proof {
            assert(v[v.len() - 1 - j] == value@[m - 1 - j]@);
            assert(back[back.len() - 1 - j] == pattern@[n - 1 - j]@);
            assert(agree_back_at(v, back, j as int) == (value@[m - 1 - j]@ == pattern@[n - 1 - j]@));
        }
        if !(value[m - 1 - j] == pattern[n - 1 - j]) {
            back_ok = false;
        }
        j = j + 1;
    }
    proof {
        assert(front_ok == agree_from_front(v, front)) by {
            if front_ok {
                assert forall|k: int| 0 <= k < v.len() && k < front.len() implies #[trigger] v[k]
                    == front[k] by {}
            }
        }
        assert(back_ok == agree_from_back(v, back)) by {
            if back_ok {
                assert forall|k: int| 0 <= k < v.len() && k < back.len() implies #[trigger] agree_back_at(v, back, k) by {}
            }
        }
    }
    if front_ok && back_ok {
        let stop = m - after_len;
        let mut tokens: Vec<String> = Vec::new();
        let mut k = before_len;
        while k < stop
            invariant
                m == v.len(),
                v == texts(value@),
                before_len <= k <= stop,
                stop <= m,
                texts(tokens@) == v.subrange(before_len as int, k as int),
            decreases stop - k,
        {
            let ghost prev = tokens@;
            let token = value[k].clone();
            assert(token == value@[k as int]);
            tokens.push(token);
            proof {
                assert(tokens@ == prev.push(value@[k as int]));
                assert(texts(prev).len() == prev.len());
                assert(prev.len() == k - before_len);
                assert(texts(tokens@)[prev.len() as int] == v[k as int]);
                assert forall|x: int| 0 <= x < tokens@.len() implies #[trigger] texts(tokens@)[x]
                    == v.subrange(before_len as int, k + 1)[x] by {
                    if x < prev.len() {
                        assert(texts(prev)[x] == texts(tokens@)[x]);
                    }
                }
                assert(texts(tokens@) =~= v.subrange(before_len as int, k + 1));
            }
            k = k + 1;
        }
        Ok(Some(tokens))
    } else {
        Ok(None)
    }
}

/// The texts of a list of patterns.
pub open spec fn pattern_texts(ps: Seq<Vec<String>>) -> Seq<Seq<Seq<char>>> {
    ps.map_values(|p: Vec<String>| texts(p@))
}

/// Tries the patterns in order and returns the outcome of the first one that
/// fails or matches; `Ok(None)` when none matches.
pub fn pattern_match_holes(patterns: &Vec<Vec<String>>, value: &Vec<String>) -> (r: Result<
    Option<Vec<String>>,
    PatternError,
>)
    requires
        tried_in_bounds(pattern_texts(patterns@), texts(value@)),
    ensures
        match (r, spec_pattern_match_holes(pattern_texts(patterns@), texts(value@))) {
            (Err(e), Err(f)) => e == f,
            (Ok(None), Ok(None)) => true,
            (Ok(Some(tokens)), Ok(Some(expected))) => texts(tokens@) == expected,
            _ => false,
        },
{
    let ghost ps = pattern_texts(patterns@);
    let ghost v = texts(value@);
    let n = patterns.len();
    let mut k: usize = 0;
    assert(ps.skip(0) =~= ps);
    while k < n
        invariant
            n == ps.len(),
            ps == pattern_texts(patterns@),
            v == texts(value@),
            k <= n,
            spec_pattern_match_holes(ps, v) == spec_pattern_match_holes(ps.skip(k as int), v),
            tried_in_bounds(ps.skip(k as int), v),
        decreases n - k,
    {
        let ghost rest = ps.skip(k as int);
        assert(rest[0] == texts(patterns@[k as int]@));
        assert(rest.drop_first() =~= ps.skip(k + 1));
        match pattern_match_hole(&patterns[k], value) {
            Err(e) => {
                return Err(e);
            },
            Ok(Some(tokens)) => {
                return Ok(Some(tokens));
            },
            Ok(None) => {},
        }
        k = k + 1;
    }
    assert(ps.skip(n as int).len() == 0);
    Ok(None)
}

/// A pattern matches every value made by filling its hole, and gives back
/// exactly what filled it.
pub proof fn lemma_fill_then_match(p: Seq<Seq<char>>, filling: Seq<Seq<char>>)
    requires
        has_single_hole(p),
    ensures
        ({
            let v = before_hole(p) + filling + after_hole(p);
            &&& match_in_bounds(p, v)
            &&& spec_pattern_match_hole(p, v) == Ok::<Option<Seq<Seq<char>>>, PatternError>(
                Some(filling),
            )
        }),
{
    let h = hole_index(p);
    let front = before_hole(p);
    let back = after_hole(p);
    let v = front + filling + back;
    assert(single_hole_at(p, h));
    assert forall|i: int| 0 <= i < v.len() && i < front.len() implies #[trigger] v[i] == front[i] by {}
    assert forall|i: int| 0 <= i < v.len() && i < back.len() implies #[trigger] agree_back_at(
        v,
        back,
        i,
    ) by {}
    assert(hole_contents(p, v) =~= filling);
}


/// A group flattens to its opening delimiter, the text inside it, and its
/// closing delimiter; an invisible group has empty delimiters.
pub proof fn lemma_group_tokens(inner: String)
    ensures
        tree_tokens(TokenTree::Group { delimiter: Delimiter::Parenthesis, inner }) == seq![
            seq!['('],
            inner@,
            seq![')'],
        ],
        tree_tokens(TokenTree::Group { delimiter: Delimiter::Brace, inner }) == seq![
            seq!['{'],
            inner@,
            seq!['}'],
        ],
        tree_tokens(TokenTree::Group { delimiter: Delimiter::Bracket, inner }) == seq![
            seq!['['],
            inner@,
            seq![']'],
        ],
        tree_tokens(TokenTree::Group { delimiter: Delimiter::Invisible, inner }) == seq![
            Seq::<char>::empty(),
            inner@,
            Seq::<char>::empty(),
        ],
{
}

/// A single tree flattens to its own tokens.
pub proof fn lemma_flat_tokens_single(t: TokenTree)
    ensures
        flat_tokens(seq![t]) == tree_tokens(t),
{
    assert(seq![t].drop_last() =~= Seq::<TokenTree>::empty());
    assert(flat_tokens(Seq::<TokenTree>::empty()) + tree_tokens(t) =~= tree_tokens(t));
}

/// Flattening keeps the order of the trees: a stream made of two parts
/// flattens to the tokens of the first part, then those of the second.
pub proof fn lemma_flat_tokens_append(a: Seq<TokenTree>, b: Seq<TokenTree>)
    ensures
        flat_tokens(a + b) == flat_tokens(a) + flat_tokens(b),
    decreases b.len(),
{
    if b.len() == 0 {
        assert(a + b =~= a);
        assert(flat_tokens(a) + flat_tokens(b) =~= flat_tokens(a));
    } else {
        lemma_flat_tokens_append(a, b.drop_last());
        assert((a + b).drop_last() =~= a + b.drop_last());
        assert((a + b).last() == b.last());
        assert(flat_tokens(a) + flat_tokens(b.drop_last()) + tree_tokens(b.last()) =~= flat_tokens(a)
            + (flat_tokens(b.drop_last()) + tree_tokens(b.last())));
    }
}
} // verus!
