//! Classifying a worker function by its signature, as the `#[worker]`
//! attribute does before it generates code.
//!
//! The accepted signatures are:
//!
//! | Flavour | Signature |
//! | - | - |
//! | Callback | `[pub] [async] fn worker(req: Request, callback: impl Fn(Response))` |
//! | Channel | `[pub] [async] fn worker(rx: leptos_workers::Receiver<Request>, tx: leptos_workers::Sender<Response>)` |
//! | Channel with init | `[pub] [async] fn worker(init: Init, rx: leptos_workers::Receiver<Request>, tx: leptos_workers::Sender<Response>)` |
//! | Future | `[pub] [async] fn worker(req: Request) -> Response` |
//! | Stream | `[pub] [async] fn worker(req: Request) -> impl leptos_workers::Stream<Item = Response>` |
//!
//! Types are read by their tokens (see [`crate::tokens`]).

use crate::tokens::{
    after_hole, agree_back_at, before_hole, has_single_hole, hole, hole_contents, hole_index, hole_matches,
    match_in_bounds, pattern_match_holes, pattern_texts, single_hole_at, spec_pattern_match_holes,
    texts, tried_in_bounds,
};
use vstd::prelude::*;

verus! {

/// The pattern of a function argument.
#[derive(Debug)]
pub enum ArgPat {
    /// A binding such as `req` or `mut req`, with the bound identifier and
    /// the tokens of the whole pattern.
    Ident { ident: String, tokens: Vec<String> },
    /// Any other pattern, by its tokens.
    Other { tokens: Vec<String> },
}

/// One argument of a function.
#[derive(Debug)]
pub enum FnArg {
    /// A `self` argument.
    Receiver,
    /// An argument with a pattern and the tokens of its type.
    Typed { pat: ArgPat, ty: Vec<String> },
}

/// The return type of a function.
#[derive(Debug)]
pub enum ReturnType {
    /// No return type is written.
    Default,
    /// The tokens of the return type, and whether it is an `impl Trait` type.
    Type { ty: Vec<String>, is_impl_trait: bool },
}

/// What the analysis reads of a function signature.
#[derive(Debug)]
pub struct Signature {
    /// The function is `unsafe`.
    pub is_unsafe: bool,
    /// The function names an ABI (`extern "C"`).
    pub has_abi: bool,
    /// The function has generic parameters.
    pub has_generics: bool,
    /// The function is variadic.
    pub is_variadic: bool,
    /// The arguments, in order.
    pub inputs: Vec<FnArg>,
    /// The return type.
    pub output: ReturnType,
}

/// Why a signature is not that of a worker.
#[derive(Clone, Copy, PartialEq, Eq, Debug)]
pub enum AnalyzeError {
    /// The signature matches none of the accepted shapes.
    NoMatch,
    /// The function takes a number of arguments other than 1, 2 or 3.
    ArgumentCount,
}

/// A callback worker: one request, responses through a callback.
#[derive(Debug)]
pub struct WorkerTypeCallback {
    pub request_pat: ArgPat,
    pub request_type: Vec<String>,
    pub callback_pat: ArgPat,
    pub response_type: Vec<String>,
}

/// A channel worker: requests and responses through channels, with an
/// optional initialisation argument.
#[derive(Debug)]
pub struct WorkerTypeChannel {
    pub init_pat_and_type: Option<(ArgPat, Vec<String>)>,
    pub receiver_pat: ArgPat,
    pub receiver_type: Vec<String>,
    pub request_type: Vec<String>,
    pub sender_pat: ArgPat,
    pub sender_type: Vec<String>,
    pub response_type: Vec<String>,
}

/// A future worker: one request, one response.
#[derive(Debug)]
pub struct WorkerTypeFuture {
    pub request_pat: ArgPat,
    pub request_type: Vec<String>,
    pub response_type: Vec<String>,
}

/// A stream worker: one request, a stream of responses.
#[derive(Debug)]
pub struct WorkerTypeStream {
    pub request_pat: ArgPat,
    pub request_type: Vec<String>,
    pub response_type: Vec<String>,
    pub return_type: Vec<String>,
}

/// The flavour of a worker, with the parts of its signature that the
/// generated code needs.
#[derive(Debug)]
pub enum WorkerType {
    Callback(WorkerTypeCallback),
    Channel(WorkerTypeChannel),
    Future(WorkerTypeFuture),
    Stream(WorkerTypeStream),
}

/// The flavour of a worker, without its parts.
#[derive(Clone, Copy, PartialEq, Eq, Debug)]
pub enum WorkerKind {
    Callback,
    Channel,
    ChannelWithInit,
    Future,
    Stream,
}

/// The texts of string literals.
pub open spec fn lits(ws: Seq<&str>) -> Seq<Seq<char>> {
    ws.map_values(|w: &str| w@)
}

/// The types that a channel worker receives requests on.
pub open spec fn receiver_patterns() -> Seq<Seq<Seq<char>>> {
    seq![
        lits(seq!["leptos_workers", ":", ":", "Receiver", "<", "@", ">"]),
        lits(seq!["flume", ":", ":", "Receiver", "<", "@", ">"]),
        lits(seq!["Receiver", "<", "@", ">"]),
    ]
}

/// The types that a channel worker sends responses on.
pub open spec fn sender_patterns() -> Seq<Seq<Seq<char>>> {
    seq![
        lits(seq!["leptos_workers", ":", ":", "Sender", "<", "@", ">"]),
        lits(seq!["flume", ":", ":", "Sender", "<", "@", ">"]),
        lits(seq!["Sender", "<", "@", ">"]),
    ]
}

/// The type of the callback of a callback worker.
pub open spec fn callback_patterns() -> Seq<Seq<Seq<char>>> {
    seq![lits(seq!["impl", "Fn", "(", "@", ")"])]
}

/// The return types of a stream worker.
pub open spec fn stream_patterns() -> Seq<Seq<Seq<char>>> {
    seq![
        lits(seq!["impl", "leptos_workers", ":", ":", "Stream", "<", "Item", "=", "@", ">"]),
        lits(seq!["impl", "futures", ":", ":", "stream", ":", ":", "Stream", "<", "Item", "=", "@", ">"]),
        lits(seq!["impl", "Stream", "<", "Item", "=", "@", ">"]),
    ]
}

/// What fills the hole of the first of `ps` that `ty` matches, if any.
pub open spec fn first_match(ps: Seq<Seq<Seq<char>>>, ty: Seq<Seq<char>>) -> Option<Seq<Seq<char>>> {
    match spec_pattern_match_holes(ps, ty) {
        Ok(r) => r,
        Err(_) => None,
    }
}

/// The type of a typed argument.
pub open spec fn arg_type(a: FnArg) -> Seq<Seq<char>> {
    match a {
        FnArg::Typed { ty, .. } => texts(ty@),
        FnArg::Receiver => Seq::empty(),
    }
}

/// Every argument is typed.
pub open spec fn all_typed(ins: Seq<FnArg>) -> bool {
    forall|i: int| 0 <= i < ins.len() ==> #[trigger] ins[i] is Typed
}

/// `rx` has a receiver type and `tx` a sender type.
pub open spec fn is_channel_pair(rx: FnArg, tx: FnArg) -> bool {
    first_match(receiver_patterns(), arg_type(rx)) is Some && first_match(
        sender_patterns(),
        arg_type(tx),
    ) is Some
}

/// The flavour of worker that a signature declares, or why it declares none.
pub open spec fn spec_worker_kind(sig: Signature) -> Result<WorkerKind, AnalyzeError> {
    let ins = sig.inputs@;
    if sig.is_unsafe || sig.has_abi || sig.has_generics || sig.is_variadic {
        Err(AnalyzeError::NoMatch)
    } else if ins.len() == 3 && all_typed(ins) {
        if is_channel_pair(ins[1], ins[2]) {
            Ok(WorkerKind::ChannelWithInit)
        } else {
            Err(AnalyzeError::NoMatch)
        }
    } else if ins.len() == 2 && all_typed(ins) {
        if is_channel_pair(ins[0], ins[1]) {
            Ok(WorkerKind::Channel)
        } else if first_match(callback_patterns(), arg_type(ins[1])) is Some {
            Ok(WorkerKind::Callback)
        } else {
            Err(AnalyzeError::NoMatch)
        }
    } else if ins.len() == 1 && all_typed(ins) {
        match sig.output {
            ReturnType::Default => Err(AnalyzeError::NoMatch),
            ReturnType::Type { ty, is_impl_trait } => {
                if first_match(stream_patterns(), texts(ty@)) is Some {
                    Ok(WorkerKind::Stream)
                } else if is_impl_trait {
                    Err(AnalyzeError::NoMatch)
                } else {
                    Ok(WorkerKind::Future)
                }
            },
        }
    } else {
        Err(AnalyzeError::ArgumentCount)
    }
}

/// A pattern whose hole is followed by a single closing token that appears
/// nowhere before the hole, such as `Receiver<@>` or `impl Fn(@)`.
pub open spec fn closing_pattern(p: Seq<Seq<char>>) -> bool {
    &&& p.len() >= 2
    &&& single_hole_at(p, p.len() - 2)
    &&& forall|i: int| 0 <= i < p.len() - 2 ==> #[trigger] p[i] != p[p.len() - 1]
}

/// Every pattern of the list is a closing pattern.
pub open spec fn all_closing(ps: Seq<Seq<Seq<char>>>) -> bool {
    forall|k: int| 0 <= k < ps.len() ==> closing_pattern(#[trigger] ps[k])
}

/// A pattern has at most one position holding its hole.
proof fn lemma_hole_unique(p: Seq<Seq<char>>, a: int, b: int)
    requires
        single_hole_at(p, a),
        single_hole_at(p, b),
    ensures
        a == b,
{
    if a != b {
        assert(p[b] != hole());
    }
}

/// Matching a closing pattern against a non-empty value never runs out of
/// tokens.
proof fn lemma_closing_in_bounds(p: Seq<Seq<char>>, v: Seq<Seq<char>>)
    requires
        closing_pattern(p),
        v.len() > 0,
    ensures
        match_in_bounds(p, v),
        has_single_hole(p),
        hole_index(p) == p.len() - 2,
{
    let h = p.len() - 2;
    assert(single_hole_at(p, h));
    lemma_hole_unique(p, h, hole_index(p));
    let front = before_hole(p);
    let back = after_hole(p);
    assert(back.len() == 1);
    assert(back[0] == p[p.len() - 1]);
    if hole_matches(p, v) && v.len() < front.len() + back.len() {
        let last = v.len() - 1;
        assert(agree_back_at(v, back, 0));
        assert(v[last] == front[last]);
        assert(front[last] == p[last]);
        assert(p[last] != p[p.len() - 1]);
    }
}

/// Trying a list of closing patterns against a non-empty value never runs
/// out of tokens and never fails.
proof fn lemma_closing_search(ps: Seq<Seq<Seq<char>>>, v: Seq<Seq<char>>)
    requires
        all_closing(ps),
        v.len() > 0,
    ensures
        tried_in_bounds(ps, v),
        spec_pattern_match_holes(ps, v) is Ok,
    decreases ps.len(),
{
    if ps.len() > 0 {
        assert(closing_pattern(ps[0]));
        lemma_closing_in_bounds(ps[0], v);
        assert(all_closing(ps.drop_first())) by {
            assert forall|k: int| 0 <= k < ps.drop_first().len() implies closing_pattern(
                #[trigger] ps.drop_first()[k],
            ) by {
                assert(ps.drop_first()[k] == ps[k + 1]);
            }
        }
        lemma_closing_search(ps.drop_first(), v);
    }
}

/// A word that may stand before the hole of a pattern that `close` ends: it
/// is neither the hole nor `close`.
spec fn front_word(w: Seq<char>, close: char) -> bool {
    w.len() != 1 || (w[0] != '@' && w[0] != close)
}

/// The pattern made of `front`, the hole, and `close`.
spec fn closed_by(front: Seq<&str>, close: char) -> Seq<Seq<char>> {
    lits(front) + seq![hole(), seq![close]]
}

/// Words that are neither the hole nor `close`, followed by the hole and
/// `close`, make a closing pattern.
proof fn lemma_closed_by(front: Seq<&str>, close: char)
    requires
        close != '@',
        forall|i: int| 0 <= i < front.len() ==> front_word((#[trigger] front[i])@, close),
    ensures
        closing_pattern(closed_by(front, close)),
{
    let p = closed_by(front, close);
    let h = front.len() as int;
    assert(p[h] == hole());
    assert(p[h + 1] == seq![close]);
    assert forall|k: int| 0 <= k < p.len() && k != h implies #[trigger] p[k] != hole() by {
        if k < h {
            assert(p[k] == front[k]@);
            assert(front_word(front[k]@, close));
            if p[k].len() == 1 {
                assert(p[k][0] != hole()[0]);
            }
        } else {
            assert(p[k][0] != hole()[0]);
        }
    }
    assert forall|i: int| 0 <= i < p.len() - 2 implies #[trigger] p[i] != p[p.len() - 1] by {
        assert(p[i] == front[i]@);
        assert(front_word(front[i]@, close));
        if p[i].len() == 1 {
            assert(p[i][0] != p[p.len() - 1][0]);
        }
    }
}

/// The fixed patterns of the analysis are closing patterns.
proof fn lemma_fixed_patterns_closing()
    ensures
        all_closing(receiver_patterns()),
        all_closing(sender_patterns()),
        all_closing(callback_patterns()),
        all_closing(stream_patterns()),
{
    reveal_strlit("leptos_workers");
    reveal_strlit(":");
    reveal_strlit("Receiver");
    reveal_strlit("Sender");
    reveal_strlit("<");
    reveal_strlit("@");
    reveal_strlit(">");
    reveal_strlit("flume");
    reveal_strlit("impl");
    reveal_strlit("Fn");
    reveal_strlit("(");
    reveal_strlit(")");
    reveal_strlit("Stream");
    reveal_strlit("futures");
    reveal_strlit("stream");
    reveal_strlit("Item");
    reveal_strlit("=");
    let rx = seq![
        seq!["leptos_workers", ":", ":", "Receiver", "<"],
        seq!["flume", ":", ":", "Receiver", "<"],
        seq!["Receiver", "<"],
    ];
    let tx = seq![
        seq!["leptos_workers", ":", ":", "Sender", "<"],
        seq!["flume", ":", ":", "Sender", "<"],
        seq!["Sender", "<"],
    ];
    let cb = seq![seq!["impl", "Fn", "("]];
    let st = seq![
        seq!["impl", "leptos_workers", ":", ":", "Stream", "<", "Item", "="],
        seq!["impl", "futures", ":", ":", "stream", ":", ":", "Stream", "<", "Item", "="],
        seq!["impl", "Stream", "<", "Item", "="],
    ];
    assert(receiver_patterns() =~~= rx.map_values(|f: Seq<&str>| closed_by(f, '>')));
    assert forall|k: int| 0 <= k < 3 implies closing_pattern(#[trigger] receiver_patterns()[k]) by {
        lemma_closed_by(rx[k], '>');
    }
    assert(sender_patterns() =~~= tx.map_values(|f: Seq<&str>| closed_by(f, '>')));
    assert forall|k: int| 0 <= k < 3 implies closing_pattern(#[trigger] sender_patterns()[k]) by {
        lemma_closed_by(tx[k], '>');
    }
    assert(callback_patterns() =~~= cb.map_values(|f: Seq<&str>| closed_by(f, ')')));
    assert forall|k: int| 0 <= k < 1 implies closing_pattern(#[trigger] callback_patterns()[k]) by {
        lemma_closed_by(cb[k], ')');
    }
    assert(stream_patterns() =~~= st.map_values(|f: Seq<&str>| closed_by(f, '>')));
    assert forall|k: int| 0 <= k < 3 implies closing_pattern(#[trigger] stream_patterns()[k]) by {
        lemma_closed_by(st[k], '>');
    }
}

/// The strings of a list of words.
fn words(ws: &[&str]) -> (r: Vec<String>)
    ensures
        texts(r@) == lits(ws@),
{
    let mut r: Vec<String> = Vec::new();
    let n = ws.len();
    for i in 0..n
        invariant
            n == ws@.len(),
            texts(r@) == lits(ws@.take(i as int)),
    {
        let ghost before = r@;
        let w = String::from_str(ws[i]);
        r.push(w);
        proof {
            assert(r@ == before.push(w));
            assert(texts(before).len() == before.len());
            assert forall|x: int| 0 <= x < r@.len() implies #[trigger] texts(r@)[x] == lits(
                ws@.take(i + 1),
            )[x] by {
                if x < before.len() {
                    assert(texts(before)[x] == texts(r@)[x]);
                    assert(lits(ws@.take(i as int))[x] == lits(ws@.take(i + 1))[x]);
                }
            }
            assert(texts(r@) =~= lits(ws@.take(i + 1)));
        }
    }
    proof {
        assert(ws@.take(n as int) =~= ws@);
    }
    r
}

/// The receiver patterns, as strings.
fn receiver_pattern_list() -> (r: Vec<Vec<String>>)
    ensures
        pattern_texts(r@) == receiver_patterns(),
{
    let r = vec![
        words(&["leptos_workers", ":", ":", "Receiver", "<", "@", ">"]),
        words(&["flume", ":", ":", "Receiver", "<", "@", ">"]),
        words(&["Receiver", "<", "@", ">"]),
    ];
    assert(pattern_texts(r@) =~= receiver_patterns());
    r
}

/// The sender patterns, as strings.
fn sender_pattern_list() -> (r: Vec<Vec<String>>)
    ensures
        pattern_texts(r@) == sender_patterns(),
{
    let r = vec![
        words(&["leptos_workers", ":", ":", "Sender", "<", "@", ">"]),
        words(&["flume", ":", ":", "Sender", "<", "@", ">"]),
        words(&["Sender", "<", "@", ">"]),
    ];
    assert(pattern_texts(r@) =~= sender_patterns());
    r
}

/// The callback pattern, as strings.
fn callback_pattern_list() -> (r: Vec<Vec<String>>)
    ensures
        pattern_texts(r@) == callback_patterns(),
{
    let r = vec![words(&["impl", "Fn", "(", "@", ")"])];
    assert(pattern_texts(r@) =~= callback_patterns());
    r
}

/// The stream patterns, as strings.
fn stream_pattern_list() -> (r: Vec<Vec<String>>)
    ensures
        pattern_texts(r@) == stream_patterns(),
{
    let r = vec![
        words(&["impl", "leptos_workers", ":", ":", "Stream", "<", "Item", "=", "@", ">"]),
        words(&["impl", "futures", ":", ":", "stream", ":", ":", "Stream", "<", "Item", "=", "@", ">"]),
        words(&["impl", "Stream", "<", "Item", "=", "@", ">"]),
    ];
    assert(pattern_texts(r@) =~= stream_patterns());
    r
}

/// What fills the hole of the first of the closing patterns that `ty`
/// matches.
fn match_type(patterns: &Vec<Vec<String>>, ty: &Vec<String>) -> (r: Option<Vec<String>>)
    requires
        all_closing(pattern_texts(patterns@)),
        ty@.len() > 0,
    ensures
        match (r, first_match(pattern_texts(patterns@), texts(ty@))) {
            (None, None) => true,
            (Some(tokens), Some(expected)) => texts(tokens@) == expected,
            _ => false,
        },
{
    proof {
        lemma_closing_search(pattern_texts(patterns@), texts(ty@));
    }
    match pattern_match_holes(patterns, ty) {
        Ok(found) => found,
        Err(_) => None,
    }
}

/// The signature reads as one written in Rust: every type has at least one
/// token, and the return type is an `impl Trait` type exactly when its first
/// token is `impl`.
pub open spec fn valid_signature(sig: Signature) -> bool {
    &&& forall|i: int| 0 <= i < sig.inputs@.len() ==> arg_type(#[trigger] sig.inputs@[i]).len() > 0 || sig.inputs@[i] is Receiver
    &&& (sig.output matches ReturnType::Type { ty, is_impl_trait } ==> ty@.len() > 0
        && (is_impl_trait <==> texts(ty@)[0] == "impl"@))
}

/// `arg` is the typed argument with this pattern and type.
pub open spec fn is_arg(arg: FnArg, pat: ArgPat, ty: Vec<String>) -> bool {
    arg == (FnArg::Typed { pat, ty })
}

/// The parts of `wt` are those of the signature, for a worker of flavour `kind`.
pub open spec fn spec_parts(sig: Signature, wt: WorkerType, kind: WorkerKind) -> bool {
    let ins = sig.inputs@;
    match kind {
        WorkerKind::ChannelWithInit => {
            &&& wt matches WorkerType::Channel(c)
            &&& c.init_pat_and_type matches Some(init) && is_arg(ins[0], init.0, init.1)
            &&& is_arg(ins[1], c.receiver_pat, c.receiver_type)
            &&& is_arg(ins[2], c.sender_pat, c.sender_type)
            &&& first_match(receiver_patterns(), texts(c.receiver_type@)) == Some(texts(c.request_type@))
            &&& first_match(sender_patterns(), texts(c.sender_type@)) == Some(texts(c.response_type@))
        },
        WorkerKind::Channel => {
            &&& wt matches WorkerType::Channel(c)
            &&& c.init_pat_and_type is None
            &&& is_arg(ins[0], c.receiver_pat, c.receiver_type)
            &&& is_arg(ins[1], c.sender_pat, c.sender_type)
            &&& first_match(receiver_patterns(), texts(c.receiver_type@)) == Some(texts(c.request_type@))
            &&& first_match(sender_patterns(), texts(c.sender_type@)) == Some(texts(c.response_type@))
        },
        WorkerKind::Callback => {
            &&& wt matches WorkerType::Callback(c)
            &&& is_arg(ins[0], c.request_pat, c.request_type)
            &&& ins[1] matches FnArg::Typed { pat, ty } && pat == c.callback_pat
                && first_match(callback_patterns(), texts(ty@)) == Some(texts(c.response_type@))
        },
        WorkerKind::Future => {
            &&& wt matches WorkerType::Future(f)
            &&& is_arg(ins[0], f.request_pat, f.request_type)
            &&& sig.output matches ReturnType::Type { ty, .. } && ty == f.response_type
        },
        WorkerKind::Stream => {
            &&& wt matches WorkerType::Stream(st)
            &&& is_arg(ins[0], st.request_pat, st.request_type)
            &&& sig.output matches ReturnType::Type { ty, .. } && ty == st.return_type
            &&& first_match(stream_patterns(), texts(st.return_type@)) == Some(texts(st.response_type@))
        },
    }
}

/// Whether every argument is typed.
fn all_typed_exec(ins: &Vec<FnArg>) -> (r: bool)
    ensures
        r == all_typed(ins@),
{
    let n = ins.len();
    for i in 0..n
        invariant
            n == ins@.len(),
            forall|k: int| 0 <= k < i ==> #[trigger] ins@[k] is Typed,
    {
        match &ins[i] {
            FnArg::Receiver => {
                return false;
            },
            FnArg::Typed { .. } => {},
        }
    }
    true
}

/// Classifies a worker function by its signature and takes the signature
/// apart into what the generated code needs. A signature of none of the
/// accepted shapes is refused with the reason.
pub fn analyze_worker_type(sig: Signature) -> (r: Result<WorkerType, AnalyzeError>)
    requires
        valid_signature(sig),
    ensures
        match r {
            Ok(wt) => spec_worker_kind(sig) matches Ok(kind) && spec_parts(sig, wt, kind),
            Err(e) => spec_worker_kind(sig) == Err::<WorkerKind, AnalyzeError>(e),
        },
{
    if sig.is_unsafe || sig.has_abi || sig.has_generics || sig.is_variadic {
        return Err(AnalyzeError::NoMatch);
    }
    let ghost ins = sig.inputs@;
    let ghost out = sig.output;
    let Signature { inputs, output, .. } = sig;
    let n = inputs.len();
    let typed = all_typed_exec(&inputs);
    let mut inputs = inputs;
    if n == 3 && typed {
        let a2 = inputs.pop().unwrap();
        let a1 = inputs.pop().unwrap();
        let a0 = inputs.pop().unwrap();
        assert(a0 == ins[0] && a1 == ins[1] && a2 == ins[2]);
        assert(ins[0] is Typed && ins[1] is Typed && ins[2] is Typed);
        match (a0, a1, a2) {
            (
                FnArg::Typed { pat: p0, ty: t0 },
                FnArg::Typed { pat: p1, ty: t1 },
                FnArg::Typed { pat: p2, ty: t2 },
            ) => {
                proof {
                    lemma_fixed_patterns_closing();
                    assert(arg_type(ins[1]).len() > 0);
                    assert(arg_type(ins[2]).len() > 0);
                }
                let rx = match_type(&receiver_pattern_list(), &t1);
                let tx = match_type(&sender_pattern_list(), &t2);
                match (rx, tx) {
                    (Some(request_type), Some(response_type)) => Ok(
                        WorkerType::Channel(
                            WorkerTypeChannel {
                                init_pat_and_type: Some((p0, t0)),
                                receiver_pat: p1,
                                receiver_type: t1,
                                request_type,
                                sender_pat: p2,
                                sender_type: t2,
                                response_type,
                            },
                        ),
                    ),
                    _ => Err(AnalyzeError::NoMatch),
                }
            },
            _ => {
                proof {
                    assert(false);
                }
                Err(AnalyzeError::NoMatch)
            },
        }
    } else if n == 2 && typed {
        let a1 = inputs.pop().unwrap();
        let a0 = inputs.pop().unwrap();
        assert(a0 == ins[0] && a1 == ins[1]);
        assert(ins[0] is Typed && ins[1] is Typed);
        match (a0, a1) {
            (FnArg::Typed { pat: p0, ty: t0 }, FnArg::Typed { pat: p1, ty: t1 }) => {
                proof {
                    lemma_fixed_patterns_closing();
                    assert(arg_type(ins[0]).len() > 0);
                    assert(arg_type(ins[1]).len() > 0);
                }
                let rx = match_type(&receiver_pattern_list(), &t0);
                let tx = match_type(&sender_pattern_list(), &t1);
                match (rx, tx) {
                    (Some(request_type), Some(response_type)) => {
                        return Ok(
                            WorkerType::Channel(
                                WorkerTypeChannel {
                                    init_pat_and_type: None,
                                    receiver_pat: p0,
                                    receiver_type: t0,
                                    request_type,
                                    sender_pat: p1,
                                    sender_type: t1,
                                    response_type,
                                },
                            ),
                        );
                    },
                    _ => {},
                }
                match match_type(&callback_pattern_list(), &t1) {
                    Some(response_type) => Ok(
                        WorkerType::Callback(
                            WorkerTypeCallback {
                                request_pat: p0,
                                request_type: t0,
                                callback_pat: p1,
                                response_type,
                            },
                        ),
                    ),
                    None => Err(AnalyzeError::NoMatch),
                }
            },
            _ => {
                proof {
                    assert(false);
                }
                Err(AnalyzeError::NoMatch)
            },
        }
    } else if n == 1 && typed {
        let a0 = inputs.pop().unwrap();
        assert(a0 == ins[0]);
        assert(ins[0] is Typed);
        match a0 {
            FnArg::Typed { pat: p0, ty: t0 } => {
                match output {
                    ReturnType::Default => Err(AnalyzeError::NoMatch),
                    ReturnType::Type { ty, is_impl_trait } => {
                        proof {
                            lemma_fixed_patterns_closing();
                        }
                        match match_type(&stream_pattern_list(), &ty) {
                            Some(response_type) => Ok(
                                WorkerType::Stream(
                                    WorkerTypeStream {
                                        request_pat: p0,
                                        request_type: t0,
                                        response_type,
                                        return_type: ty,
                                    },
                                ),
                            ),
                            None => {
                                if is_impl_trait {
                                    Err(AnalyzeError::NoMatch)
                                } else {
                                    Ok(
                                        WorkerType::Future(
                                            WorkerTypeFuture {
                                                request_pat: p0,
                                                request_type: t0,
                                                response_type: ty,
                                            },
                                        ),
                                    )
                                }
                            },
                        }
                    },
                }
            },
            FnArg::Receiver => {
                proof {
                    assert(false);
                }
                Err(AnalyzeError::NoMatch)
            },
        }
    } else {
        Err(AnalyzeError::ArgumentCount)
    }
}

impl WorkerType {
    /// The prefix of the name of the exported function that registers the worker.
    pub open spec fn wasm_function_prefix_spec(&self) -> Seq<char> {
        match self {
            WorkerType::Callback(_) => "WORKERS_CALLBACK"@,
            WorkerType::Channel(_) => "WORKERS_CHANNEL"@,
            WorkerType::Future(_) => "WORKERS_FUTURE"@,
            WorkerType::Stream(_) => "WORKERS_STREAM"@,
        }
    }
}

impl WorkerType {
    /// The prefix of the name of the exported function that registers the worker.
    pub fn wasm_function_prefix(&self) -> (r: &'static str)
        ensures
            r@ == self.wasm_function_prefix_spec(),
    {
        match self {
            WorkerType::Callback(_) => "WORKERS_CALLBACK",
            WorkerType::Channel(_) => "WORKERS_CHANNEL",
            WorkerType::Future(_) => "WORKERS_FUTURE",
            WorkerType::Stream(_) => "WORKERS_STREAM",
        }
    }

    /// The name of the type, in the `workers` module of the runtime, that
    /// registers the worker.
    pub fn worker_fn_type(&self) -> (r: &'static str)
        ensures
            r@ == match self {
                WorkerType::Callback(_) => "CallbackWorkerFn"@,
                WorkerType::Channel(_) => "ChannelWorkerFn"@,
                WorkerType::Future(_) => "FutureWorkerFn"@,
                WorkerType::Stream(_) => "StreamWorkerFn"@,
            },
    {
        match self {
            WorkerType::Callback(_) => "CallbackWorkerFn",
            WorkerType::Channel(_) => "ChannelWorkerFn",
            WorkerType::Future(_) => "FutureWorkerFn",
            WorkerType::Stream(_) => "StreamWorkerFn",
        }
    }

    /// The size of the pool that the generated function starts with: one
    /// worker for a channel, which is persistent, and two otherwise.
    pub fn default_pool_size(&self) -> (r: usize)
        ensures
            r == (if self is Channel {
                1usize
            } else {
                2usize
            }),
    {
        match self {
            WorkerType::Channel(_) => 1,
            WorkerType::Future(_) | WorkerType::Callback(_) | WorkerType::Stream(_) => 2,
        }
    }

    /// The type of the requests.
    pub fn request_type(&self) -> (r: &Vec<String>)
        ensures
            *r == match self {
                WorkerType::Callback(c) => c.request_type,
                WorkerType::Channel(c) => c.request_type,
                WorkerType::Future(f) => f.request_type,
                WorkerType::Stream(st) => st.request_type,
            },
    {
        match self {
            WorkerType::Callback(c) => &c.request_type,
            WorkerType::Channel(c) => &c.request_type,
            WorkerType::Future(f) => &f.request_type,
            WorkerType::Stream(st) => &st.request_type,
        }
    }

    /// The type of the responses.
    pub fn response_type(&self) -> (r: &Vec<String>)
        ensures
            *r == match self {
                WorkerType::Callback(c) => c.response_type,
                WorkerType::Channel(c) => c.response_type,
                WorkerType::Future(f) => f.response_type,
                WorkerType::Stream(st) => st.response_type,
            },
    {
        match self {
            WorkerType::Callback(c) => &c.response_type,
            WorkerType::Channel(c) => &c.response_type,
            WorkerType::Future(f) => &f.response_type,
            WorkerType::Stream(st) => &st.response_type,
        }
    }
}

/// Why a pattern cannot name the argument of a generated function.
#[derive(Clone, Copy, PartialEq, Eq, Debug)]
pub enum PatError {
    /// The pattern is not a plain binding.
    UnexpectedPattern,
}

/// The identifier that a binding pattern binds; any other pattern is refused.
pub fn get_ident_from_pat(pat: &ArgPat) -> (r: Result<&String, PatError>)
    ensures
        match pat {
            ArgPat::Ident { ident, .. } => r == Ok::<&String, PatError>(ident),
            ArgPat::Other { .. } => r == Err::<&String, PatError>(PatError::UnexpectedPattern),
        },
{
    match pat {
        ArgPat::Ident { ident, .. } => Ok(ident),
        ArgPat::Other { .. } => Err(PatError::UnexpectedPattern),
    }
}

/// The name of the exported function that registers a worker: the prefix of
/// its flavour, an underscore, and the worker's name.
pub fn wasm_function_name(worker_type: &WorkerType, worker_name: &str) -> (r: String)
    ensures
        r@ == worker_type.wasm_function_prefix_spec() + seq!['_'] + worker_name@,
{
    let mut r = String::from_str(worker_type.wasm_function_prefix());
    proof {
        reveal_strlit("_");
    }
    r.append("_");
    r.append(worker_name);
    r
}

/// The identifier a pattern binds, as a list of one, or nothing for any
/// other pattern.
pub open spec fn bound_names(pat: ArgPat) -> Option<Seq<String>> {
    match pat {
        ArgPat::Ident { ident, .. } => Some(seq![ident]),
        ArgPat::Other { .. } => None,
    }
}

/// The inputs of the function that runs the worker on its default pool, by
/// name: the request and the callback of a callback worker, the request of
/// a future or stream worker, and none for a channel worker, whose function
/// takes the init data. An input whose pattern is not a plain binding is
/// refused.
pub fn pool_function_inputs(worker_type: &WorkerType) -> (r: Result<Vec<String>, PatError>)
    ensures
        match worker_type {
            WorkerType::Callback(c) => match (bound_names(c.request_pat), bound_names(c.callback_pat)) {
                (Some(a), Some(b)) => r matches Ok(v) && v@ == a + b,
                _ => r == Err::<Vec<String>, PatError>(PatError::UnexpectedPattern),
            },
            WorkerType::Channel(_) => r matches Ok(v) && v@.len() == 0,
            WorkerType::Future(f) => match bound_names(f.request_pat) {
                Some(a) => r matches Ok(v) && v@ == a,
                None => r == Err::<Vec<String>, PatError>(PatError::UnexpectedPattern),
            },
            WorkerType::Stream(st) => match bound_names(st.request_pat) {
                Some(a) => r matches Ok(v) && v@ == a,
                None => r == Err::<Vec<String>, PatError>(PatError::UnexpectedPattern),
            },
        },
{
    let mut names: Vec<String> = Vec::new();
    match worker_type {
        WorkerType::Callback(c) => {
            let request = get_ident_from_pat(&c.request_pat)?;
            let callback = get_ident_from_pat(&c.callback_pat)?;
            names.push(request.clone());
            names.push(callback.clone());
            assert(names@ =~= bound_names(c.request_pat)->0 + bound_names(c.callback_pat)->0);
        },
        WorkerType::Channel(_) => {},
        WorkerType::Future(f) => {
            let request = get_ident_from_pat(&f.request_pat)?;
            names.push(request.clone());
            assert(names@ =~= bound_names(f.request_pat)->0);
        },
        WorkerType::Stream(st) => {
            let request = get_ident_from_pat(&st.request_pat)?;
            names.push(request.clone());
            assert(names@ =~= bound_names(st.request_pat)->0);
        },
    }
    Ok(names)
}


/// A closing pattern does not match a value that differs from it at a
/// position before the hole.
proof fn lemma_closing_differs(p: Seq<Seq<char>>, v: Seq<Seq<char>>, i: int)
    requires
        closing_pattern(p),
        0 <= i < p.len() - 2,
        i < v.len(),
        v[i] != p[i],
    ensures
        has_single_hole(p),
        !hole_matches(p, v),
{
    let h = p.len() - 2;
    assert(single_hole_at(p, h));
    lemma_hole_unique(p, h, hole_index(p));
    assert(before_hole(p)[i] == p[i]);
}

/// A closing pattern does not match a non-empty value that ends otherwise.
proof fn lemma_closing_differs_last(p: Seq<Seq<char>>, v: Seq<Seq<char>>)
    requires
        closing_pattern(p),
        v.len() > 0,
        v[v.len() - 1] != p[p.len() - 1],
    ensures
        has_single_hole(p),
        !hole_matches(p, v),
{
    let h = p.len() - 2;
    assert(single_hole_at(p, h));
    lemma_hole_unique(p, h, hole_index(p));
    assert(after_hole(p).len() == 1);
    assert(after_hole(p)[0] == p[p.len() - 1]);
    assert(!agree_back_at(v, after_hole(p), 0));
}

/// The pattern made of `front`, the hole and `close` matches the same words
/// around `fill`, and cuts out `fill`.
proof fn lemma_closed_by_cuts(front: Seq<&str>, close: char, fill: Seq<Seq<char>>)
    requires
        close != '@',
        forall|i: int| 0 <= i < front.len() ==> front_word((#[trigger] front[i])@, close),
    ensures
        has_single_hole(closed_by(front, close)),
        hole_matches(closed_by(front, close), lits(front) + fill + seq![seq![close]]),
        hole_contents(closed_by(front, close), lits(front) + fill + seq![seq![close]]) == fill,
{
    let p = closed_by(front, close);
    let v = lits(front) + fill + seq![seq![close]];
    lemma_closed_by(front, close);
    let h = front.len() as int;
    assert(single_hole_at(p, h));
    lemma_hole_unique(p, h, hole_index(p));
    let b = before_hole(p);
    let a = after_hole(p);
    assert(b =~= lits(front));
    assert(a =~= seq![seq![close]]);
    assert forall|i: int| 0 <= i < v.len() && i < b.len() implies #[trigger] v[i] == b[i] by {
        assert(v[i] == lits(front)[i]);
    }
    assert forall|i: int| 0 <= i < v.len() && i < a.len() implies #[trigger] agree_back_at(v, a, i) by {
        assert(i == 0);
        assert(v[v.len() - 1] == seq![close]);
    }
    assert(hole_contents(p, v) =~= fill);
}

/// The search passes over patterns that do not match.
proof fn lemma_search_skips(ps: Seq<Seq<Seq<char>>>, k: int, v: Seq<Seq<char>>)
    requires
        0 <= k <= ps.len(),
        forall|j: int| 0 <= j < k ==> has_single_hole(#[trigger] ps[j]) && !hole_matches(ps[j], v),
    ensures
        spec_pattern_match_holes(ps, v) == spec_pattern_match_holes(ps.skip(k), v),
    decreases k,
{
    if k == 0 {
        assert(ps.skip(0) =~= ps);
    } else {
        assert(has_single_hole(ps[0]) && !hole_matches(ps[0], v));
        let rest = ps.drop_first();
        assert forall|j: int| 0 <= j < k - 1 implies has_single_hole(#[trigger] rest[j]) && !hole_matches(
            rest[j],
            v,
        ) by {
            assert(rest[j] == ps[j + 1]);
        }
        lemma_search_skips(rest, k - 1, v);
        assert(rest.skip(k - 1) =~= ps.skip(k));
    }
}

/// The search ends at the first pattern that matches, with what its hole
/// cuts out.
proof fn lemma_first_match_at(ps: Seq<Seq<Seq<char>>>, k: int, v: Seq<Seq<char>>)
    requires
        0 <= k < ps.len(),
        forall|j: int| 0 <= j < k ==> has_single_hole(#[trigger] ps[j]) && !hole_matches(ps[j], v),
        has_single_hole(ps[k]),
        hole_matches(ps[k], v),
    ensures
        first_match(ps, v) == Some(hole_contents(ps[k], v)),
{
    lemma_search_skips(ps, k, v);
    assert(ps.skip(k)[0] == ps[k]);
}

/// The search finds nothing when no pattern matches.
proof fn lemma_first_match_none(ps: Seq<Seq<Seq<char>>>, v: Seq<Seq<char>>)
    requires
        forall|j: int| 0 <= j < ps.len() ==> has_single_hole(#[trigger] ps[j]) && !hole_matches(ps[j], v),
    ensures
        first_match(ps, v) is None,
{
    lemma_search_skips(ps, ps.len() as int, v);
    assert(ps.skip(ps.len() as int).len() == 0);
}

/// The fixed patterns, as the words before the hole and the closing token.
proof fn lemma_fixed_patterns_shape()
    ensures
        receiver_patterns() == seq![
            closed_by(seq!["leptos_workers", ":", ":", "Receiver", "<"], '>'),
            closed_by(seq!["flume", ":", ":", "Receiver", "<"], '>'),
            closed_by(seq!["Receiver", "<"], '>'),
        ],
        sender_patterns() == seq![
            closed_by(seq!["leptos_workers", ":", ":", "Sender", "<"], '>'),
            closed_by(seq!["flume", ":", ":", "Sender", "<"], '>'),
            closed_by(seq!["Sender", "<"], '>'),
        ],
        callback_patterns() == seq![closed_by(seq!["impl", "Fn", "("], ')')],
        stream_patterns() == seq![
            closed_by(seq!["impl", "leptos_workers", ":", ":", "Stream", "<", "Item", "="], '>'),
            closed_by(seq!["impl", "futures", ":", ":", "stream", ":", ":", "Stream", "<", "Item", "="], '>'),
            closed_by(seq!["impl", "Stream", "<", "Item", "="], '>'),
        ],
{
    reveal_strlit("@");
    reveal_strlit(">");
    reveal_strlit(")");
    assert(receiver_patterns() =~~= seq![
        closed_by(seq!["leptos_workers", ":", ":", "Receiver", "<"], '>'),
        closed_by(seq!["flume", ":", ":", "Receiver", "<"], '>'),
        closed_by(seq!["Receiver", "<"], '>'),
    ]);
    assert(sender_patterns() =~~= seq![
        closed_by(seq!["leptos_workers", ":", ":", "Sender", "<"], '>'),
        closed_by(seq!["flume", ":", ":", "Sender", "<"], '>'),
        closed_by(seq!["Sender", "<"], '>'),
    ]);
    assert(callback_patterns() =~~= seq![closed_by(seq!["impl", "Fn", "("], ')')]);
    assert(stream_patterns() =~~= seq![
        closed_by(seq!["impl", "leptos_workers", ":", ":", "Stream", "<", "Item", "="], '>'),
        closed_by(seq!["impl", "futures", ":", ":", "stream", ":", ":", "Stream", "<", "Item", "="], '>'),
        closed_by(seq!["impl", "Stream", "<", "Item", "="], '>'),
    ]);
}

/// The paths under which a stream type may be written.
pub open spec fn stream_path(path: Seq<&str>) -> bool {
    ||| path == seq!["leptos_workers", ":", ":"]
    ||| path == seq!["futures", ":", ":", "stream", ":", ":"]
    ||| path == Seq::<&str>::empty()
}

/// A return type `impl [path::]Stream<Item = R>` is matched by the stream
/// patterns, which cut out `R`.
proof fn lemma_stream_form(path: Seq<&str>, response: Seq<Seq<char>>)
    requires
        stream_path(path),
    ensures
        first_match(
            stream_patterns(),
            lits(seq!["impl"]) + lits(path) + lits(seq!["Stream", "<", "Item", "="]) + response + lits(seq![">"]),
        ) == Some(response),
{
    reveal_strlit("impl");
    reveal_strlit("leptos_workers");
    reveal_strlit("futures");
    reveal_strlit("stream");
    reveal_strlit(":");
    reveal_strlit("Stream");
    reveal_strlit("<");
    reveal_strlit("Item");
    reveal_strlit("=");
    reveal_strlit(">");
    lemma_fixed_patterns_shape();
    lemma_fixed_patterns_closing();
    let ps = stream_patterns();
    let v = lits(seq!["impl"]) + lits(path) + lits(seq!["Stream", "<", "Item", "="]) + response + lits(seq![">"]);
    assert(closing_pattern(ps[0]) && closing_pattern(ps[1]) && closing_pattern(ps[2]));
    if path == seq!["leptos_workers", ":", ":"] {
        let front = seq!["impl", "leptos_workers", ":", ":", "Stream", "<", "Item", "="];
        assert(v =~~= lits(front) + response + seq![seq!['>']]);
        lemma_closed_by_cuts(front, '>', response);
        lemma_first_match_at(ps, 0, v);
    } else if path == seq!["futures", ":", ":", "stream", ":", ":"] {
        let front = seq!["impl", "futures", ":", ":", "stream", ":", ":", "Stream", "<", "Item", "="];
        assert(v =~~= lits(front) + response + seq![seq!['>']]);
        assert(v[1] == "futures"@ && ps[0][1] == "leptos_workers"@);
        lemma_closing_differs(ps[0], v, 1);
        lemma_closed_by_cuts(front, '>', response);
        lemma_first_match_at(ps, 1, v);
    } else {
        let front = seq!["impl", "Stream", "<", "Item", "="];
        assert(v =~~= lits(front) + response + seq![seq!['>']]);
        assert(v[1] == "Stream"@ && ps[0][1] == "leptos_workers"@ && ps[1][1] == "futures"@);
        lemma_closing_differs(ps[0], v, 1);
        lemma_closing_differs(ps[1], v, 1);
        lemma_closed_by_cuts(front, '>', response);
        lemma_first_match_at(ps, 2, v);
    }
}

/// The paths under which a channel's receiver or sender type may be
/// written.
pub open spec fn channel_path(path: Seq<&str>) -> bool {
    ||| path == seq!["leptos_workers", ":", ":"]
    ||| path == seq!["flume", ":", ":"]
    ||| path == Seq::<&str>::empty()
}

/// A type `[path::]Receiver<A>` is matched by the receiver patterns, which
/// cut out `A`.
proof fn lemma_receiver_form(path: Seq<&str>, request: Seq<Seq<char>>)
    requires
        channel_path(path),
    ensures
        first_match(receiver_patterns(), lits(path) + lits(seq!["Receiver", "<"]) + request + lits(seq![">"]))
            == Some(request),
{
    reveal_strlit("leptos_workers");
    reveal_strlit("flume");
    reveal_strlit(":");
    reveal_strlit("Receiver");
    reveal_strlit("<");
    reveal_strlit(">");
    lemma_fixed_patterns_shape();
    lemma_fixed_patterns_closing();
    let ps = receiver_patterns();
    let v = lits(path) + lits(seq!["Receiver", "<"]) + request + lits(seq![">"]);
    assert(closing_pattern(ps[0]) && closing_pattern(ps[1]) && closing_pattern(ps[2]));
    if path == seq!["leptos_workers", ":", ":"] {
        let front = seq!["leptos_workers", ":", ":", "Receiver", "<"];
        assert(v =~~= lits(front) + request + seq![seq!['>']]);
        lemma_closed_by_cuts(front, '>', request);
        lemma_first_match_at(ps, 0, v);
    } else if path == seq!["flume", ":", ":"] {
        let front = seq!["flume", ":", ":", "Receiver", "<"];
        assert(v =~~= lits(front) + request + seq![seq!['>']]);
        assert(v[0] == "flume"@ && ps[0][0] == "leptos_workers"@);
        lemma_closing_differs(ps[0], v, 0);
        lemma_closed_by_cuts(front, '>', request);
        lemma_first_match_at(ps, 1, v);
    } else {
        let front = seq!["Receiver", "<"];
        assert(v =~~= lits(front) + request + seq![seq!['>']]);
        assert(v[0] == "Receiver"@ && ps[0][0] == "leptos_workers"@ && ps[1][0] == "flume"@);
        lemma_closing_differs(ps[0], v, 0);
        lemma_closing_differs(ps[1], v, 0);
        lemma_closed_by_cuts(front, '>', request);
        lemma_first_match_at(ps, 2, v);
    }
}

/// A type `[path::]Sender<B>` is matched by the sender patterns, which cut
/// out `B`.
proof fn lemma_sender_form(path: Seq<&str>, response: Seq<Seq<char>>)
    requires
        channel_path(path),
    ensures
        first_match(sender_patterns(), lits(path) + lits(seq!["Sender", "<"]) + response + lits(seq![">"]))
            == Some(response),
{
    reveal_strlit("leptos_workers");
    reveal_strlit("flume");
    reveal_strlit(":");
    reveal_strlit("Sender");
    reveal_strlit("<");
    reveal_strlit(">");
    lemma_fixed_patterns_shape();
    lemma_fixed_patterns_closing();
    let ps = sender_patterns();
    let v = lits(path) + lits(seq!["Sender", "<"]) + response + lits(seq![">"]);
    assert(closing_pattern(ps[0]) && closing_pattern(ps[1]) && closing_pattern(ps[2]));
    if path == seq!["leptos_workers", ":", ":"] {
        let front = seq!["leptos_workers", ":", ":", "Sender", "<"];
        assert(v =~~= lits(front) + response + seq![seq!['>']]);
        lemma_closed_by_cuts(front, '>', response);
        lemma_first_match_at(ps, 0, v);
    } else if path == seq!["flume", ":", ":"] {
        let front = seq!["flume", ":", ":", "Sender", "<"];
        assert(v =~~= lits(front) + response + seq![seq!['>']]);
        assert(v[0] == "flume"@ && ps[0][0] == "leptos_workers"@);
        lemma_closing_differs(ps[0], v, 0);
        lemma_closed_by_cuts(front, '>', response);
        lemma_first_match_at(ps, 1, v);
    } else {
        let front = seq!["Sender", "<"];
        assert(v =~~= lits(front) + response + seq![seq!['>']]);
        assert(v[0] == "Sender"@ && ps[0][0] == "leptos_workers"@ && ps[1][0] == "flume"@);
        lemma_closing_differs(ps[0], v, 0);
        lemma_closing_differs(ps[1], v, 0);
        lemma_closed_by_cuts(front, '>', response);
        lemma_first_match_at(ps, 2, v);
    }
}

/// A type `impl Fn(R)` is matched by the callback pattern, which cuts out
/// `R`, and by no sender pattern.
proof fn lemma_callback_form(response: Seq<Seq<char>>)
    ensures
        first_match(callback_patterns(), lits(seq!["impl", "Fn", "("]) + response + lits(seq![")"]))
            == Some(response),
        first_match(sender_patterns(), lits(seq!["impl", "Fn", "("]) + response + lits(seq![")"])) is None,
{
    reveal_strlit("impl");
    reveal_strlit("Fn");
    reveal_strlit("(");
    reveal_strlit(")");
    reveal_strlit(">");
    lemma_fixed_patterns_shape();
    lemma_fixed_patterns_closing();
    let v = lits(seq!["impl", "Fn", "("]) + response + lits(seq![")"]);
    let front = seq!["impl", "Fn", "("];
    assert(v =~~= lits(front) + response + seq![seq![')']]);
    lemma_closed_by_cuts(front, ')', response);
    let cb = callback_patterns();
    lemma_first_match_at(cb, 0, v);
    let ps = sender_patterns();
    assert(closing_pattern(ps[0]) && closing_pattern(ps[1]) && closing_pattern(ps[2]));
    assert(v[v.len() - 1] == seq![')']);
    assert(ps[0][ps[0].len() - 1] == seq!['>'] && ps[1][ps[1].len() - 1] == seq!['>']
        && ps[2][ps[2].len() - 1] == seq!['>']);
    assert(seq![')'][0] != seq!['>'][0]);
    lemma_closing_differs_last(ps[0], v);
    lemma_closing_differs_last(ps[1], v);
    lemma_closing_differs_last(ps[2], v);
    lemma_first_match_none(ps, v);
}

/// No flag of the signature rules it out: it is safe, has no ABI, no
/// generics, and is not variadic.
pub open spec fn plain_signature(sig: Signature) -> bool {
    !sig.is_unsafe && !sig.has_abi && !sig.has_generics && !sig.is_variadic
}

/// `fn worker(req: Q) -> impl [path::]Stream<Item = R>` is a stream worker
/// with request `req: Q` and response `R`, for each path under which a
/// stream may be written.
pub proof fn lemma_stream_worker(sig: Signature, path: Seq<&str>, response: Seq<Seq<char>>)
    requires
        plain_signature(sig),
        stream_path(path),
        sig.inputs@.len() == 1,
        sig.inputs@[0] is Typed,
        sig.output matches ReturnType::Type { ty, .. } && texts(ty@) == lits(seq!["impl"]) + lits(path)
            + lits(seq!["Stream", "<", "Item", "="]) + response + lits(seq![">"]),
    ensures
        spec_worker_kind(sig) == Ok::<WorkerKind, AnalyzeError>(WorkerKind::Stream),
        forall|wt: WorkerType| #[trigger] spec_parts(sig, wt, WorkerKind::Stream) ==> {
            &&& wt matches WorkerType::Stream(st)
            &&& is_arg(sig.inputs@[0], st.request_pat, st.request_type)
            &&& texts(st.response_type@) == response
        },
{
    lemma_stream_form(path, response);
}

/// `fn worker(rx: [p::]Receiver<A>, tx: [q::]Sender<B>)` is a channel
/// worker without init data, with request `A` and response `B`, for each
/// path under which the channel types may be written.
pub proof fn lemma_channel_worker(
    sig: Signature,
    rx_path: Seq<&str>,
    request: Seq<Seq<char>>,
    tx_path: Seq<&str>,
    response: Seq<Seq<char>>,
)
    requires
        plain_signature(sig),
        channel_path(rx_path),
        channel_path(tx_path),
        sig.inputs@.len() == 2,
        all_typed(sig.inputs@),
        arg_type(sig.inputs@[0]) == lits(rx_path) + lits(seq!["Receiver", "<"]) + request + lits(seq![">"]),
        arg_type(sig.inputs@[1]) == lits(tx_path) + lits(seq!["Sender", "<"]) + response + lits(seq![">"]),
    ensures
        spec_worker_kind(sig) == Ok::<WorkerKind, AnalyzeError>(WorkerKind::Channel),
        forall|wt: WorkerType| #[trigger] spec_parts(sig, wt, WorkerKind::Channel) ==> {
            &&& wt matches WorkerType::Channel(c)
            &&& c.init_pat_and_type is None
            &&& texts(c.request_type@) == request
            &&& texts(c.response_type@) == response
        },
{
    lemma_receiver_form(rx_path, request);
    lemma_sender_form(tx_path, response);
}

/// `fn worker(init: I, rx: [p::]Receiver<A>, tx: [q::]Sender<B>)` is a
/// channel worker with init data `init: I`, request `A` and response `B`.
pub proof fn lemma_channel_worker_with_init(
    sig: Signature,
    rx_path: Seq<&str>,
    request: Seq<Seq<char>>,
    tx_path: Seq<&str>,
    response: Seq<Seq<char>>,
)
    requires
        plain_signature(sig),
        channel_path(rx_path),
        channel_path(tx_path),
        sig.inputs@.len() == 3,
        all_typed(sig.inputs@),
        arg_type(sig.inputs@[1]) == lits(rx_path) + lits(seq!["Receiver", "<"]) + request + lits(seq![">"]),
        arg_type(sig.inputs@[2]) == lits(tx_path) + lits(seq!["Sender", "<"]) + response + lits(seq![">"]),
    ensures
        spec_worker_kind(sig) == Ok::<WorkerKind, AnalyzeError>(WorkerKind::ChannelWithInit),
        forall|wt: WorkerType| #[trigger] spec_parts(sig, wt, WorkerKind::ChannelWithInit) ==> {
            &&& wt matches WorkerType::Channel(c)
            &&& c.init_pat_and_type matches Some(init) && is_arg(sig.inputs@[0], init.0, init.1)
            &&& texts(c.request_type@) == request
            &&& texts(c.response_type@) == response
        },
{
    lemma_receiver_form(rx_path, request);
    lemma_sender_form(tx_path, response);
}

/// `fn worker(req: Q, callback: impl Fn(R))` is a callback worker with
/// request `req: Q` and response `R`.
pub proof fn lemma_callback_worker(sig: Signature, response: Seq<Seq<char>>)
    requires
        plain_signature(sig),
        sig.inputs@.len() == 2,
        all_typed(sig.inputs@),
        arg_type(sig.inputs@[1]) == lits(seq!["impl", "Fn", "("]) + response + lits(seq![")"]),
    ensures
        spec_worker_kind(sig) == Ok::<WorkerKind, AnalyzeError>(WorkerKind::Callback),
        forall|wt: WorkerType| #[trigger] spec_parts(sig, wt, WorkerKind::Callback) ==> {
            &&& wt matches WorkerType::Callback(c)
            &&& is_arg(sig.inputs@[0], c.request_pat, c.request_type)
            &&& texts(c.response_type@) == response
        },
{
    lemma_callback_form(response);
}

/// `fn worker(req: Q) -> R`, where `R` is not an `impl` type, is a future
/// worker with request `req: Q` and response `R`.
pub proof fn lemma_future_worker(sig: Signature)
    requires
        valid_signature(sig),
        plain_signature(sig),
        sig.inputs@.len() == 1,
        sig.inputs@[0] is Typed,
        sig.output matches ReturnType::Type { ty, .. } && texts(ty@)[0] != "impl"@,
    ensures
        spec_worker_kind(sig) == Ok::<WorkerKind, AnalyzeError>(WorkerKind::Future),
        forall|wt: WorkerType| #[trigger] spec_parts(sig, wt, WorkerKind::Future) ==> {
            &&& wt matches WorkerType::Future(f)
            &&& is_arg(sig.inputs@[0], f.request_pat, f.request_type)
            &&& sig.output matches ReturnType::Type { ty, .. } && f.response_type == ty
        },
{
    reveal_strlit("impl");
    lemma_fixed_patterns_shape();
    lemma_fixed_patterns_closing();
    let ps = stream_patterns();
    assert(closing_pattern(ps[0]) && closing_pattern(ps[1]) && closing_pattern(ps[2]));
    assert(ps[0][0] == "impl"@ && ps[1][0] == "impl"@ && ps[2][0] == "impl"@);
    match sig.output {
        ReturnType::Type { ty, .. } => {
            let v = texts(ty@);
            lemma_closing_differs(ps[0], v, 0);
            lemma_closing_differs(ps[1], v, 0);
            lemma_closing_differs(ps[2], v, 0);
            lemma_first_match_none(ps, v);
        },
        ReturnType::Default => {},
    }
}

/// A function with no argument, more than three, or a `self` argument is
/// refused for its arguments.
pub proof fn lemma_argument_count_refused(sig: Signature)
    requires
        plain_signature(sig),
        sig.inputs@.len() == 0 || sig.inputs@.len() > 3 || exists|i: int|
            0 <= i < sig.inputs@.len() && #[trigger] sig.inputs@[i] is Receiver,
    ensures
        spec_worker_kind(sig) == Err::<WorkerKind, AnalyzeError>(AnalyzeError::ArgumentCount),
{
}

/// An `unsafe`, `extern`, generic or variadic function is not a worker.
pub proof fn lemma_flagged_signature_refused(sig: Signature)
    requires
        !plain_signature(sig),
    ensures
        spec_worker_kind(sig) == Err::<WorkerKind, AnalyzeError>(AnalyzeError::NoMatch),
{
}

/// Each flavour's registration function carries its own prefix.
pub proof fn lemma_wasm_function_prefixes(wt: WorkerType)
    ensures
        wt is Callback ==> wt.wasm_function_prefix_spec() == "WORKERS_CALLBACK"@,
        wt is Channel ==> wt.wasm_function_prefix_spec() == "WORKERS_CHANNEL"@,
        wt is Future ==> wt.wasm_function_prefix_spec() == "WORKERS_FUTURE"@,
        wt is Stream ==> wt.wasm_function_prefix_spec() == "WORKERS_STREAM"@,
{
}

/// Workers of two different flavours never get the same registration
/// function name, whatever their names.
pub proof fn lemma_wasm_function_names_distinct(a: WorkerType, b: WorkerType, a_name: Seq<char>, b_name: Seq<char>)
    requires
        !(a is Callback && b is Callback),
        !(a is Channel && b is Channel),
        !(a is Future && b is Future),
        !(a is Stream && b is Stream),
    ensures
        a.wasm_function_prefix_spec() + seq!['_'] + a_name != b.wasm_function_prefix_spec() + seq!['_'] + b_name,
{
    reveal_strlit("WORKERS_CALLBACK");
    reveal_strlit("WORKERS_CHANNEL");
    reveal_strlit("WORKERS_FUTURE");
    reveal_strlit("WORKERS_STREAM");
    let x = a.wasm_function_prefix_spec() + seq!['_'] + a_name;
    let y = b.wasm_function_prefix_spec() + seq!['_'] + b_name;
    assert(x[8] == a.wasm_function_prefix_spec()[8] && x[9] == a.wasm_function_prefix_spec()[9]);
    assert(y[8] == b.wasm_function_prefix_spec()[8] && y[9] == b.wasm_function_prefix_spec()[9]);
    assert(x[8] != y[8] || x[9] != y[9]);
}

/// A binding pattern names its identifier, and any other pattern names
/// nothing.
pub proof fn lemma_bound_names(pat: ArgPat)
    ensures
        pat matches ArgPat::Ident { ident, .. } ==> bound_names(pat) == Some(seq![ident]),
        pat is Other ==> bound_names(pat) is None,
{
}

/// `fn worker(req: Q) -> impl T`, where `T` is not written as a stream
/// (its first word is none of `Stream`, `leptos_workers`, `futures`), is
/// not a worker.
pub proof fn lemma_other_impl_return_refused(sig: Signature)
    requires
        valid_signature(sig),
        plain_signature(sig),
        sig.inputs@.len() == 1,
        sig.inputs@[0] is Typed,
        sig.output matches ReturnType::Type { ty, .. } && {
            let v = texts(ty@);
            &&& v.len() >= 2
            &&& v[0] == "impl"@
            &&& v[1] != "Stream"@
            &&& v[1] != "leptos_workers"@
            &&& v[1] != "futures"@
        },
    ensures
        spec_worker_kind(sig) == Err::<WorkerKind, AnalyzeError>(AnalyzeError::NoMatch),
{
    reveal_strlit("impl");
    reveal_strlit("Stream");
    reveal_strlit("leptos_workers");
    reveal_strlit("futures");
    lemma_fixed_patterns_shape();
    lemma_fixed_patterns_closing();
    let ps = stream_patterns();
    assert(closing_pattern(ps[0]) && closing_pattern(ps[1]) && closing_pattern(ps[2]));
    assert(ps[0][1] == "leptos_workers"@ && ps[1][1] == "futures"@ && ps[2][1] == "Stream"@);
    match sig.output {
        ReturnType::Type { ty, .. } => {
            let v = texts(ty@);
            lemma_closing_differs(ps[0], v, 1);
            lemma_closing_differs(ps[1], v, 1);
            lemma_closing_differs(ps[2], v, 1);
            lemma_first_match_none(ps, v);
        },
        ReturnType::Default => {},
    }
}

} // verus!
