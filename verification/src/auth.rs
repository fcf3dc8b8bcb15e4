//! Token-based access control: query-string parsing, candidate selection and the access decision.

use crate::text::{
    chars_of, first_index_of, lemma_first_index_of, split_on, str_eq, substring, trim, trim_window,
};
use crate::config::ServerCfg;
use vstd::prelude::*;

verus! {

/// Outcome of the token comparison for one request.
#[derive(Clone, Copy, Debug, PartialEq, Eq, Structural)]
pub enum AuthDecision {
    /// Token checking is off, or the candidate matches the configured token.
    Allowed,
    /// Token checking is on and the request carries no candidate token.
    Unauthenticated,
    /// The request carries a candidate that differs from the configured token.
    Forbidden,
}

/// The key/value pair that one `&`-separated piece of a query string contributes, if any.
///
/// The key is the trimmed text before the first `=`, the value the trimmed text after it
/// (empty when there is no `=`). A piece whose key is empty contributes nothing.
pub open spec fn parse_pair(piece: Seq<char>) -> Option<(Seq<char>, Seq<char>)> {
    let i = first_index_of(piece, '=');
    let key = trim(piece.take(i));
    let value = if i < piece.len() {
        trim(piece.skip(i + 1))
    } else {
        Seq::empty()
    };
    if key.len() == 0 {
        None
    } else {
        Some((key, value))
    }
}

/// The mapping that a sequence of pieces denotes: later pieces override earlier ones.
pub open spec fn params_of(pieces: Seq<Seq<char>>) -> Map<Seq<char>, Seq<char>>
    decreases pieces.len(),
{
    if pieces.len() == 0 {
        Map::empty()
    } else {
        let before = params_of(pieces.drop_last());
        match parse_pair(pieces.last()) {
            Some((key, value)) => before.insert(key, value),
            None => before,
        }
    }
}

/// The mapping that a whole query string denotes.
pub open spec fn query_params(input: Seq<char>) -> Map<Seq<char>, Seq<char>> {
    params_of(split_on(input, '&'))
}

/// The mapping that a list of key/value entries denotes: later entries override earlier ones.
pub open spec fn entries_map(entries: Seq<(String, String)>) -> Map<Seq<char>, Seq<char>>
    decreases entries.len(),
{
    if entries.len() == 0 {
        Map::empty()
    } else {
        entries_map(entries.drop_last()).insert(entries.last().0@, entries.last().1@)
    }
}

/// The candidate token of a request: the query parameter wins over the header.
pub open spec fn candidate_of(query: Option<Seq<char>>, header: Option<Seq<char>>) -> Option<
    Seq<char>,
> {
    if query is Some {
        query
    } else {
        header
    }
}

/// The decision for a candidate against the configured token.
pub open spec fn decision_for(candidate: Option<Seq<char>>, expected: Seq<char>) -> AuthDecision {
    match candidate {
        None => AuthDecision::Unauthenticated,
        Some(token) => if token == expected {
            AuthDecision::Allowed
        } else {
            AuthDecision::Forbidden
        },
    }
}

/// The decision for a request with the given query string and header value.
pub open spec fn access_decision(
    enabled: bool,
    query: Seq<char>,
    header: Option<Seq<char>>,
    expected: Seq<char>,
) -> AuthDecision {
    if !enabled {
        AuthDecision::Allowed
    } else {
        let params = query_params(query);
        let from_query = if params.contains_key("token"@) {
            Some(params["token"@])
        } else {
            None
        };
        decision_for(candidate_of(from_query, header), expected)
    }
}

/// The view of an optional string slice.
pub open spec fn opt_view(s: Option<&str>) -> Option<Seq<char>> {
    match s {
        Some(text) => Some(text@),
        None => None,
    }
}

/// Parsed query parameters: a finite mapping from key to value.
#[derive(Debug)]
pub struct QueryParams {
    entries: Vec<(String, String)>,
}

impl View for QueryParams {
    type V = Map<Seq<char>, Seq<char>>;

    closed spec fn view(&self) -> Map<Seq<char>, Seq<char>> {
        entries_map(self.entries@)
    }
}

impl QueryParams {
    /// The empty mapping.
    pub fn new() -> (params: QueryParams)
        ensures
            params@ == Map::<Seq<char>, Seq<char>>::empty(),
    {
        QueryParams { entries: Vec::new() }
    }

    /// Binds `key` to `value`, replacing an earlier binding of `key`.
    pub fn insert(&mut self, key: String, value: String)
        ensures
            final(self)@ == old(self)@.insert(key@, value@),
    {
        let ghost before = self.entries@;
        self.entries.push((key, value));
        assert(self.entries@.drop_last() =~= before);
    }

    /// The value bound to `key`, if there is one.
    pub fn get(&self, key: &str) -> (value: Option<&str>)
        ensures
            self@.contains_key(key@) <==> value is Some,
            value matches Some(text) ==> text@ == self@[key@],
    {
        let mut i: usize = self.entries.len();
        assert(self.entries@.take(i as int) =~= self.entries@);
        while i > 0
            invariant
                i <= self.entries@.len(),
                self@ == entries_map(self.entries@),
                self@.contains_key(key@) <==> entries_map(self.entries@.take(i as int)).contains_key(
                    key@,
                ),
                self@.contains_key(key@) ==> self@[key@] == entries_map(
                    self.entries@.take(i as int),
                )[key@],
            decreases i,
        {
            let ghost upto = self.entries@.take(i as int);
            assert(upto.drop_last() =~= self.entries@.take(i - 1));
            assert(upto.last() == self.entries@[i - 1]);
            if str_eq(self.entries[i - 1].0.as_str(), key) {
                return Some(self.entries[i - 1].1.as_str());
            }
            i -= 1;
        }
        assert(self.entries@.take(0) =~= Seq::<(String, String)>::empty());
        None
    }
}

/// Adds to `params` what the piece `from..to` of the query string contributes.
fn add_piece(params: &mut QueryParams, input: &str, chars: &Vec<char>, from: usize, to: usize)
    requires
        chars@ == input@,
        from <= to <= chars@.len(),
    ensures
        final(params)@ == (match parse_pair(input@.subrange(from as int, to as int)) {
            Some((key, value)) => old(params)@.insert(key, value),
            None => old(params)@,
        }),
{
    let ghost piece = input@.subrange(from as int, to as int);
    let mut eq: usize = from;
    while eq < to && chars[eq] != '='
        invariant
            from <= eq <= to <= chars@.len(),
            forall|j: int| from <= j < eq ==> chars@[j] != '=',
        decreases to - eq,
    {
        eq += 1;
    }
    proof {
        assert forall|j: int| 0 <= j < eq - from implies piece[j] != '=' by {
            assert(piece[j] == chars@[from + j]);
        }
        lemma_first_index_of(piece, '=', eq - from);
        assert(piece.take(eq - from) =~= chars@.subrange(from as int, eq as int));
    }
    let (key_from, key_to) = trim_window(chars, from, eq);
    if key_from == key_to {
        return ;
    }
    let key = substring(input, key_from, key_to);
    let value = if eq < to {
        proof {
            assert(piece.skip(eq - from + 1) =~= chars@.subrange(eq + 1, to as int));
        }
        let (value_from, value_to) = trim_window(chars, eq + 1, to);
        substring(input, value_from, value_to)
    } else {
        String::new()
    };
    params.insert(key, value);
}

/// Cutting at the first separator at or after `start`: the text up to it is one piece, the
/// rest is split on its own.
proof fn lemma_split_step(s: Seq<char>, start: int, i: int, sep: char)
    requires
        0 <= start <= i < s.len(),
        forall|j: int| start <= j < i ==> s[j] != sep,
        s[i] == sep,
    ensures
        split_on(s.skip(start), sep) == seq![s.subrange(start, i)] + split_on(s.skip(i + 1), sep),
{
    let tail = s.skip(start);
    assert forall|j: int| 0 <= j < i - start implies tail[j] != sep by {
        assert(tail[j] == s[start + j]);
    }
    lemma_first_index_of(tail, sep, i - start);
    assert(tail.take(i - start) =~= s.subrange(start, i));
    assert(tail.skip(i - start + 1) =~= s.skip(i + 1));
}

/// Text without a separator is a single piece.
proof fn lemma_split_last(s: Seq<char>, start: int, sep: char)
    requires
        0 <= start <= s.len(),
        forall|j: int| start <= j < s.len() ==> s[j] != sep,
    ensures
        split_on(s.skip(start), sep) == seq![s.subrange(start, s.len() as int)],
{
    let tail = s.skip(start);
    assert forall|j: int| 0 <= j < tail.len() implies tail[j] != sep by {
        assert(tail[j] == s[start + j]);
    }
    lemma_first_index_of(tail, sep, tail.len() as int);
    assert(tail =~= s.subrange(start, s.len() as int));
}

/// What one more piece adds to the mapping of the pieces before it.
proof fn lemma_params_push(done: Seq<Seq<char>>, piece: Seq<char>)
    ensures
        params_of(done.push(piece)) == (match parse_pair(piece) {
            Some((key, value)) => params_of(done).insert(key, value),
            None => params_of(done),
        }),
{
    assert(done.push(piece).drop_last() =~= done);
}

/// Parses a query string into its parameters.
///
/// Pieces are separated by `&`; within a piece the first `=` separates key from value,
/// both are trimmed, pieces with an empty key are skipped and a later piece overrides an
/// earlier one with the same key.
pub fn parse_params(input: &str) -> (params: QueryParams)
    ensures
        params@ == query_params(input@),
{
    let chars = chars_of(input);
    let n = chars.len();
    let mut params = QueryParams::new();
    let mut start: usize = 0;
    let mut i: usize = 0;
    let ghost mut done: Seq<Seq<char>> = Seq::empty();
    proof {
        assert(input@.skip(0) =~= input@);
        assert(done + split_on(input@, '&') =~= split_on(input@, '&'));
    }
    while i < n
        invariant
            start <= i <= n,
            n == chars@.len(),
            chars@ == input@,
            forall|j: int| start <= j < i ==> chars@[j] != '&',
            split_on(input@, '&') == done + split_on(input@.skip(start as int), '&'),
            params@ == params_of(done),
        decreases n - i,
    {
        if chars[i] == '&' {
            let ghost piece = input@.subrange(start as int, i as int);
            let ghost rest = split_on(input@.skip(i + 1), '&');
            add_piece(&mut params, input, &chars, start, i);
            proof {
                lemma_split_step(input@, start as int, i as int, '&');
                lemma_params_push(done, piece);
                assert(done + (seq![piece] + rest) =~= done.push(piece) + rest);
                done = done.push(piece);
            }
            start = i + 1;
        }
        i += 1;
    }
    let ghost piece = input@.subrange(start as int, n as int);
    add_piece(&mut params, input, &chars, start, n);
    proof {
        lemma_split_last(input@, start as int, '&');
        lemma_params_push(done, piece);
        assert(done + seq![piece] =~= done.push(piece));
    }
    params
}

/// Picks the candidate token of a request: the query parameter when present, else the header.
pub fn select_candidate<'a>(query: Option<&'a str>, header: Option<&'a str>) -> (candidate: Option<
    &'a str,
>)
    ensures
        opt_view(candidate) == candidate_of(opt_view(query), opt_view(header)),
{
    if query.is_some() {
        query
    } else {
        header
    }
}

/// Compares a candidate, byte for byte, with the configured token.
pub fn check_token(candidate: Option<&str>, expected: &str) -> (decision: AuthDecision)
    ensures
        decision == decision_for(opt_view(candidate), expected@),
{
    match candidate {
        None => AuthDecision::Unauthenticated,
        Some(token) => {
            if str_eq(token, expected) {
                AuthDecision::Allowed
            } else {
                AuthDecision::Forbidden
            }
        },
    }
}

/// Decides whether a request is let through.
///
/// `query` is the raw query string of the request (empty when it has none), `header` the
/// value of its authorization header, `expected` the configured token.
pub fn authorize(enabled: bool, query: &str, header: Option<&str>, expected: &str) -> (decision:
    AuthDecision)
    ensures
        decision == access_decision(enabled, query@, opt_view(header), expected@),
{
    if !enabled {
        return AuthDecision::Allowed;
    }
    let params = parse_params(query);
    let from_query = params.get("token");
    check_token(select_candidate(from_query, header), expected)
}

/// Decides whether a request to open a player's socket is let through: the token is
/// checked only if the configuration asks for tokens on sockets.
pub fn socket_access(cfg: &ServerCfg, query: &str, header: Option<&str>) -> (decision: AuthDecision)
    ensures
        decision == access_decision(cfg.use_token, query@, opt_view(header), cfg.token@),
{
    authorize(cfg.use_token, query, header, cfg.token.as_str())
}

/// Decides whether a read-only query is let through: the token is checked only if the
/// configuration asks for tokens on queries.
pub fn query_access(cfg: &ServerCfg, query: &str, header: Option<&str>) -> (decision: AuthDecision)
    ensures
        decision == access_decision(cfg.query_use_token, query@, opt_view(header), cfg.token@),
{
    authorize(cfg.query_use_token, query, header, cfg.token.as_str())
}

/// A request whose query parameter carries the configured token is allowed, whatever the
/// header holds and even when there is no header.
pub proof fn lemma_correct_query_token_is_allowed(header: Option<Seq<char>>, expected: Seq<char>)
    ensures
        decision_for(candidate_of(Some(expected), header), expected) == AuthDecision::Allowed,
{
}

/// A request whose candidate, from either channel, differs from the configured token is
/// forbidden.
pub proof fn lemma_mismatched_token_is_forbidden(
    query: Option<Seq<char>>,
    header: Option<Seq<char>>,
    expected: Seq<char>,
)
    requires
        candidate_of(query, header) matches Some(token) && token != expected,
    ensures
        decision_for(candidate_of(query, header), expected) == AuthDecision::Forbidden,
{
}

/// A request with neither channel populated is unauthenticated.
pub proof fn lemma_missing_token_is_unauthenticated(expected: Seq<char>)
    ensures
        decision_for(candidate_of(None, None), expected) == AuthDecision::Unauthenticated,
{
}

} // verus!
