//! Laws of the registry, stated over the contents that `Will::create`,
//! `Will::get` and `Will::execute` are specified against.
use vstd::prelude::*;

use crate::will::{create_outcome, execute_outcome, lookup, WillError, WillView};

verus! {

/// No record exists for an identity until a `create` for it succeeds: a new
/// registry holds none, and neither an `execute` (of anyone) nor a `create`
/// that is not an authorised one for that identity adds one.
pub proof fn no_record_before_create(
    m: Map<Seq<char>, WillView>,
    a: Seq<char>,
    caller: Seq<char>,
    owner: Seq<char>,
    content_hash: Seq<char>,
    beneficiaries: Seq<Seq<char>>,
    target: Seq<char>,
)
    requires
        !m.contains_key(a),
        owner != a || caller != owner,
    ensures
        lookup(Map::empty(), a) == None::<WillView>,
        lookup(create_outcome(m, caller, owner, content_hash, beneficiaries).1, a) == None::<
            WillView,
        >,
        lookup(execute_outcome(m, target).1, a) == None::<WillView>,
{
}

/// After the owner creates a will, reading it back gives the hash and
/// beneficiaries that were given, not executed.
pub proof fn create_then_get(
    m: Map<Seq<char>, WillView>,
    owner: Seq<char>,
    content_hash: Seq<char>,
    beneficiaries: Seq<Seq<char>>,
)
    ensures
        create_outcome(m, owner, owner, content_hash, beneficiaries).0 == Ok::<(), WillError>(()),
        lookup(create_outcome(m, owner, owner, content_hash, beneficiaries).1, owner) == Some(
            WillView { content_hash, beneficiaries, executed: false },
        ),
{
}

/// A `create` by anyone but the owner is refused as unauthorised and changes
/// nothing: in particular an earlier record of the owner stays as it was.
pub proof fn create_by_other_refused(
    m: Map<Seq<char>, WillView>,
    caller: Seq<char>,
    owner: Seq<char>,
    content_hash: Seq<char>,
    beneficiaries: Seq<Seq<char>>,
)
    requires
        caller != owner,
    ensures
        create_outcome(m, caller, owner, content_hash, beneficiaries).0 == Err::<(), WillError>(
            WillError::Unauthorized,
        ),
        create_outcome(m, caller, owner, content_hash, beneficiaries).1 == m,
        lookup(create_outcome(m, caller, owner, content_hash, beneficiaries).1, owner) == lookup(
            m,
            owner,
        ),
{
}

/// Executing a will that exists and is not executed succeeds, marks it
/// executed, and keeps its hash and beneficiaries.
pub proof fn execute_marks_executed(m: Map<Seq<char>, WillView>, owner: Seq<char>)
    requires
        m.contains_key(owner),
        !m[owner].executed,
    ensures
        execute_outcome(m, owner).0 == Ok::<(), WillError>(()),
        lookup(execute_outcome(m, owner).1, owner) == Some(
            WillView {
                content_hash: m[owner].content_hash,
                beneficiaries: m[owner].beneficiaries,
                executed: true,
            },
        ),
{
}

/// Executing the same will a second time is refused as already executed and
/// leaves the registry exactly as the first execution left it.
pub proof fn execute_twice_refused(m: Map<Seq<char>, WillView>, owner: Seq<char>)
    requires
        m.contains_key(owner),
        !m[owner].executed,
    ensures
        execute_outcome(execute_outcome(m, owner).1, owner).0 == Err::<(), WillError>(
            WillError::AlreadyExecuted,
        ),
        execute_outcome(execute_outcome(m, owner).1, owner).1 == execute_outcome(m, owner).1,
{
}

/// Executing for an owner without a record succeeds, and there is still no
/// record for that owner afterwards.
pub proof fn execute_without_record(m: Map<Seq<char>, WillView>, owner: Seq<char>)
    requires
        !m.contains_key(owner),
    ensures
        execute_outcome(m, owner).0 == Ok::<(), WillError>(()),
        lookup(execute_outcome(m, owner).1, owner) == None::<WillView>,
{
}

} // verus!
