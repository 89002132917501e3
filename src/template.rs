//! Argument templates and the binding of a caller's arguments to a procedure's parameters.
use vstd::prelude::*;

use crate::value::Value;

verus! {

/// The decoded form of a packed argument template.
#[derive(Clone, Copy, Debug, PartialEq, Eq, Structural)]
pub struct ArgTemplate {
    /// Number of mandatory arguments (bits 0 to 6).
    pub mandatory: u64,
    /// Number of mandatory and optional arguments together (bits 8 and up).
    pub nonrest: u64,
    /// Whether the procedure takes a rest list (bit 7).
    pub rest: bool,
}

/// The caller supplied a number of arguments that the template does not admit.
#[derive(Clone, Copy, Debug, PartialEq, Eq, Structural)]
pub struct ArityError {
    pub mandatory: u64,
    pub nonrest: u64,
    pub nargs: u64,
}

/// What the binder pushes on a new frame: the positional arguments, then, for a procedure
/// with a rest parameter, the items of the rest list.
#[derive(Debug)]
pub struct BoundArgs {
    pub positional: Vec<Value>,
    pub rest: Option<Vec<Value>>,
}

pub open spec fn template_spec(packed: u64) -> ArgTemplate {
    ArgTemplate { mandatory: packed % 128, nonrest: packed / 256, rest: (packed / 128) % 2 == 1 }
}

/// Whether a call with `nargs` arguments is admitted by the template.
pub open spec fn arity_ok(t: ArgTemplate, nargs: int) -> bool {
    t.mandatory <= nargs && (t.rest || nargs <= t.nonrest)
}

pub open spec fn min_int(a: int, b: int) -> int {
    if a <= b {
        a
    } else {
        b
    }
}

/// The arguments that land in positional slots.
pub open spec fn positional_spec(t: ArgTemplate, args: Seq<Value>) -> Seq<Value> {
    args.subrange(0, min_int(t.nonrest as int, args.len() as int))
}

/// The items of the rest list: the arguments after the positional ones (possibly none).
pub open spec fn rest_spec(t: ArgTemplate, args: Seq<Value>) -> Seq<Value> {
    args.subrange(min_int(t.nonrest as int, args.len() as int), args.len() as int)
}

/// Unpacks a template: bits 0 to 6 are the mandatory count, bit 7 the rest flag, and the
/// bits from 8 up the count of mandatory and optional parameters.
pub fn decode_template(packed: u64) -> (t: ArgTemplate)
    ensures
        t == template_spec(packed),
{
    ArgTemplate { mandatory: packed % 128, nonrest: packed / 256, rest: (packed / 128) % 2 == 1 }
}

/// Distributes `args` over a procedure's parameters, or reports an arity error carrying the
/// template's counts and the number of arguments.
pub fn bind_args(t: ArgTemplate, args: &[Value]) -> (r: Result<BoundArgs, ArityError>)
    ensures
        arity_ok(t, args@.len() as int) <==> r is Ok,
        match r {
            Ok(b) => {
                &&& b.positional@ == positional_spec(t, args@)
                &&& (t.rest <==> b.rest is Some)
                &&& t.rest ==> b.rest.unwrap()@ == rest_spec(t, args@)
            },
            Err(e) => e == ArityError {
                mandatory: t.mandatory,
                nonrest: t.nonrest,
                nargs: args@.len() as u64,
            },
        },
{
    let nargs = args.len() as u64;
    if !(t.mandatory <= nargs && (t.rest || nargs <= t.nonrest)) {
        return Err(ArityError { mandatory: t.mandatory, nonrest: t.nonrest, nargs });
    }
    let pushed: usize = if t.nonrest < nargs {
        t.nonrest as usize
    } else {
        args.len()
    };
    let mut positional: Vec<Value> = Vec::new();
    let mut i: usize = 0;
    while i < pushed
        invariant
            pushed <= args@.len(),
            i <= pushed,
            positional@ == args@.subrange(0, i as int),
        decreases pushed - i,
    {
        positional.push(args[i]);
        i = i + 1;
        assert(positional@ =~= args@.subrange(0, i as int));
    }
    if !t.rest {
        return Ok(BoundArgs { positional, rest: None });
    }
    let mut rest: Vec<Value> = Vec::new();
    let mut j: usize = pushed;
    while j < args.len()
        invariant
            pushed <= j <= args@.len(),
            rest@ == args@.subrange(pushed as int, j as int),
        decreases args@.len() - j,
    {
        rest.push(args[j]);
        j = j + 1;
        assert(rest@ =~= args@.subrange(pushed as int, j as int));
    }
    Ok(BoundArgs { positional, rest: Some(rest) })
}

/// Laws of the binder: an admitted call places exactly `min(nonrest, nargs)` arguments in
/// order, and with a rest parameter exactly the remaining arguments, in order, in the rest
/// list; together they are the whole argument list.
pub proof fn lemma_binder_keeps_all_arguments(t: ArgTemplate, args: Seq<Value>)
    requires
        arity_ok(t, args.len() as int),
        t.mandatory <= t.nonrest,
    ensures
        positional_spec(t, args).len() == min_int(t.nonrest as int, args.len() as int),
        forall|i: int|
            0 <= i < positional_spec(t, args).len() ==> #[trigger] positional_spec(t, args)[i]
                == args[i],
        t.rest ==> positional_spec(t, args) + rest_spec(t, args) == args,
        !t.rest ==> positional_spec(t, args) == args,
{
    assert(positional_spec(t, args) + rest_spec(t, args) =~= args);
    if !t.rest {
        assert(positional_spec(t, args) =~= args);
    }
}

} // verus!
