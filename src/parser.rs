//! The parser protocol: a parser maps an input to the remaining input and
//! an output, or to an error; `map` transforms the output of a parser.
use core::marker::PhantomData;
use vstd::prelude::*;
use crate::error::ErrorWithContext;

verus! {

/// The result of running a parser: the remaining input and the output, or
/// an error.
pub type AResult<I, O = I, E = ErrorWithContext<I>> = core::result::Result<(I, O), E>;

/// A unit of parsing behaviour: given an input, it returns the remaining
/// input and an output, or an error. Parsers keep no state between runs.
pub trait Parser<I, O, E>: Sized {
    /// Whether the parser may be run on any input.
    spec fn ready(&self) -> bool;

    /// Whether `r` is a possible result of running the parser on `input`.
    spec fn outcome(&self, input: I, r: AResult<I, O, E>) -> bool;

    /// Runs the parser on `input`.
    fn exec(&mut self, input: I) -> (r: AResult<I, O, E>)
        requires
            old(self).ready(),
        ensures
            *final(self) == *old(self),
            old(self).outcome(input, r),
    ;

    /// Returns a parser that runs this one and passes its output through
    /// `f`, leaving the remaining input and any error as they are.
    fn map<F: Fn(O) -> B, B>(self, f: F) -> (r: Mapped<Self, F, O>)
        ensures
            r == mapped::<Self, F, O>(self, f),
            r.spec_parser() == self,
            r.spec_f() == f,
    {
        Mapped { parser: self, f, phantom: PhantomData }
    }
}

impl<I, O, E, F: Fn(I) -> AResult<I, O, E>> Parser<I, O, E> for F {
    open spec fn ready(&self) -> bool {
        forall|input: I| self.requires((input,))
    }

    open spec fn outcome(&self, input: I, r: AResult<I, O, E>) -> bool {
        self.ensures((input,), r)
    }

    fn exec(&mut self, input: I) -> (r: AResult<I, O, E>) {
        (*self)(input)
    }
}

/// A parser that must resolve fully rather than ask for more input. Over a
/// buffer that is complete from the start it passes the inner parser's
/// result through.
#[derive(Debug, Clone, Copy)]
pub struct Complete<P> {
    parser: P,
}

impl<P> Complete<P> {
    /// The wrapped parser.
    pub closed spec fn spec_parser(self) -> P {
        self.parser
    }

    /// Wraps `parser`.
    pub fn new(parser: P) -> (r: Self)
        ensures
            r.spec_parser() == parser,
    {
        Complete { parser }
    }
}

impl<I, O, E, P: Parser<I, O, E>> Parser<I, O, E> for Complete<P> {
    open spec fn ready(&self) -> bool {
        self.spec_parser().ready()
    }

    open spec fn outcome(&self, input: I, r: AResult<I, O, E>) -> bool {
        self.spec_parser().outcome(input, r)
    }

    fn exec(&mut self, input: I) -> (r: AResult<I, O, E>) {
        self.parser.exec(input)
    }
}

/// A parser that passes the output of `parser` through `f`.
pub struct Mapped<P, F, B> {
    parser: P,
    f: F,
    phantom: PhantomData<B>,
}

/// The parser that passes the output of `parser` through `f`.
pub closed spec fn mapped<P, F, B>(parser: P, f: F) -> Mapped<P, F, B> {
    Mapped { parser, f, phantom: PhantomData }
}

impl<P, F, B> Mapped<P, F, B> {
    /// The inner parser.
    pub closed spec fn spec_parser(self) -> P {
        self.parser
    }

    /// The function applied to the inner parser's output.
    pub closed spec fn spec_f(self) -> F {
        self.f
    }
}

/// Whether `r` is a possible image of the result `r0` under `f`: an error
/// unchanged, or the same remaining input with a possible image under `f`
/// of the output.
pub open spec fn is_mapped_result<I, O1, O2, E, F: Fn(O1) -> O2>(
    r0: AResult<I, O1, E>,
    f: F,
    r: AResult<I, O2, E>,
) -> bool {
    match (r0, r) {
        (Err(e0), Err(e)) => e0 == e,
        (Ok((rest0, o)), Ok((rest, out))) => rest0 == rest && f.ensures((o,), out),
        _ => false,
    }
}

/// Whether `r` is a possible result of running `parser` on `input` and
/// passing its output through `f`.
pub open spec fn mapped_outcome<I, O1, O2, E, P: Parser<I, O1, E>, F: Fn(O1) -> O2>(
    parser: P,
    f: F,
    input: I,
    r: AResult<I, O2, E>,
) -> bool {
    exists|r0: AResult<I, O1, E>| #[trigger] parser.outcome(input, r0) && is_mapped_result(r0, f, r)
}

impl<I, O1, O2, E, P: Parser<I, O1, E>, F: Fn(O1) -> O2> Parser<I, O2, E> for Mapped<P, F, O1> {
    open spec fn ready(&self) -> bool {
        &&& self.spec_parser().ready()
        &&& forall|o: O1| self.spec_f().requires((o,))
    }

    open spec fn outcome(&self, input: I, r: AResult<I, O2, E>) -> bool {
        mapped_outcome(self.spec_parser(), self.spec_f(), input, r)
    }

    fn exec(&mut self, input: I) -> (r: AResult<I, O2, E>) {
        let res = self.parser.exec(input);
        match res {
            Err(err) => Err(err),
            Ok((rest, output)) => {
                assert(self.spec_f().requires((output,)));
                Ok((rest, (self.f)(output)))
            },
        }
    }
}

/// Mapping twice is mapping once with the composed function: when `h`
/// relates each value to exactly the results of `g` after `f`, running
/// `parser` mapped by `f` and then by `g` has the same possible results as
/// running `parser` mapped by `h`.
pub proof fn lemma_map_twice<I, O, B, C, E, P, F, G, H>(parser: P, f: F, g: G, h: H, input: I, r: AResult<I, C, E>)
    where
        P: Parser<I, O, E>,
        F: Fn(O) -> B,
        G: Fn(B) -> C,
        H: Fn(O) -> C,
    requires
        forall|o: O| #[trigger] f.requires((o,)),
        forall|o: O, b: B| #[trigger] f.ensures((o,), b) ==> g.requires((b,)),
        forall|o: O| #[trigger] h.requires((o,)),
        forall|o: O, c: C| #[trigger] h.ensures((o,), c) <==> exists|b: B| #[trigger]
            f.ensures((o,), b) && g.ensures((b,), c),
    ensures
        mapped::<Mapped<P, F, O>, G, B>(mapped(parser, f), g).outcome(input, r) <==> mapped::<
            P,
            H,
            O,
        >(parser, h).outcome(input, r),
{
    let inner = mapped::<P, F, O>(parser, f);
    let twice = mapped::<Mapped<P, F, O>, G, B>(inner, g);
    let once = mapped::<P, H, O>(parser, h);
    if twice.outcome(input, r) {
        let rb = choose|rb: AResult<I, B, E>|
            #[trigger] inner.outcome(input, rb) && is_mapped_result(rb, g, r);
        let ro = choose|ro: AResult<I, O, E>|
            #[trigger] parser.outcome(input, ro) && is_mapped_result(ro, f, rb);
        if let (Ok((_, o)), Ok((_, b)), Ok((_, c))) = (ro, rb, r) {
            assert(h.ensures((o,), c));
        }
        assert(is_mapped_result(ro, h, r));
    }
    if once.outcome(input, r) {
        let ro = choose|ro: AResult<I, O, E>|
            #[trigger] parser.outcome(input, ro) && is_mapped_result(ro, h, r);
        match (ro, r) {
            (Ok((rest, o)), Ok((_, c))) => {
                let b = choose|b: B| #[trigger] f.ensures((o,), b) && g.ensures((b,), c);
                let rb: AResult<I, B, E> = Ok((rest, b));
                assert(is_mapped_result(ro, f, rb));
                assert(inner.outcome(input, rb));
                assert(is_mapped_result(rb, g, r));
            },
            (Err(e), _) => {
                let rb: AResult<I, B, E> = Err(e);
                assert(is_mapped_result(ro, f, rb));
                assert(inner.outcome(input, rb));
            },
            _ => {
            },
        }
    }
}

} // verus!
