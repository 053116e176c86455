//! The serializability predicate over types and signatures.

use vstd::prelude::*;
use crate::model::{Flags, Function, Modifier, Parameter, Typed, TypedValue};
use vstd::string::StringExecFns;

verus! {

/// The number of `Pointer` modifiers among the first `n` of `mods`.
pub open spec fn pointers_in(mods: Seq<Modifier>, n: int) -> nat
    decreases n,
{
    if n <= 0 {
        0
    } else {
        pointers_in(mods, n - 1) + if mods[n - 1] is Pointer { 1nat } else { 0nat }
    }
}

/// The levels of indirection of a type.
pub open spec fn pointer_depth(t: Typed) -> nat {
    pointers_in(t.modifiers@, t.modifiers@.len() as int)
}

/// Whether the switches accept a single-level pointer to the base type `name`.
pub open spec fn pointee_allowed(name: Seq<char>, flags: Flags) -> bool {
    ||| flags.allow_char_str && name == "char"@
    ||| flags.allow_void_str && name == "void"@
    ||| flags.allow_basic_str
}

/// Whether a type may cross a serialization boundary under `flags`.
///
/// A pointer is accepted only at one level of indirection, to a base type
/// that the switches allow. Anything else is judged by its structure.
pub open spec fn typed_serializable(t: Typed, flags: Flags) -> bool
    decreases t,
{
    if pointer_depth(t) > 0 {
        pointer_depth(t) == 1 && t.value is Base && pointee_allowed(t.name@, flags)
    } else {
        match t.value {
            TypedValue::Base | TypedValue::Enum => true,
            TypedValue::Typedef(nested) => typed_serializable(*nested, flags),
            TypedValue::Array(nested, _) => typed_serializable(*nested, flags),
            TypedValue::Struct(members) => members_serializable(members, members@.len() as int, flags),
            TypedValue::Union(members) => members_serializable(members, members@.len() as int, flags),
            TypedValue::Function(_) | TypedValue::Circular => false,
        }
    }
}

/// Whether each of the first `n` of `members` has a serializable type.
pub open spec fn members_serializable(members: Vec<Parameter>, n: int, flags: Flags) -> bool
    decreases members, n,
{
    if n <= 0 || n > members@.len() {
        true
    } else {
        members_serializable(members, n - 1, flags) && typed_serializable(members@[n - 1].typed, flags)
    }
}

/// Whether a signature may cross a serialization boundary: its return type
/// and every parameter must.
pub open spec fn function_serializable(f: Function, flags: Flags) -> bool {
    typed_serializable(f.typed, flags) && members_serializable(
        f.parameters,
        f.parameters@.len() as int,
        flags,
    )
}


/// Counts the `Pointer` modifiers of a type, stopping at two: no decision
/// depends on more.
fn count_pointers(mods: &Vec<Modifier>) -> (count: u8)
    ensures
        count <= 2,
        count < 2 ==> count == pointers_in(mods@, mods@.len() as int),
        count == 2 ==> pointers_in(mods@, mods@.len() as int) >= 2,
{
    let mut count: u8 = 0;
    let mut i: usize = 0;
    while i < mods.len()
        invariant
            i <= mods.len(),
            count <= 2,
            count < 2 ==> count == pointers_in(mods@, i as int),
            count == 2 ==> pointers_in(mods@, i as int) >= 2,
        decreases mods.len() - i,
    {
        let is_pointer = match mods[i] {
            Modifier::Pointer => true,
            _ => false,
        };
        if is_pointer && count < 2 {
            count = count + 1;
        }
        i = i + 1;
    }
    count
}

/// Decides whether the switches accept a single-level pointer to the base
/// type `name`.
fn check_pointee(name: &String, flags: &Flags) -> (allowed: bool)
    ensures
        allowed == pointee_allowed(name@, *flags),
{
    if flags.allow_basic_str {
        return true;
    }
    let is_char = flags.allow_char_str && *name == String::from_str("char");
    let is_void = flags.allow_void_str && *name == String::from_str("void");
    is_char || is_void
}

/// Decides whether every one of `members` has a serializable type.
fn check_members(members: &Vec<Parameter>, flags: &Flags) -> (all: bool)
    ensures
        all == members_serializable(*members, members@.len() as int, *flags),
    decreases *members, 0nat,
{
    let mut i: usize = 0;
    while i < members.len()
        invariant
            i <= members.len(),
            members_serializable(*members, i as int, *flags),
        decreases members.len() - i,
    {
        if !check_typed(&members[i].typed, flags) {
            proof {
                lemma_member_rejects(*members, i as int, members@.len() as int, *flags);
            }
            return false;
        }
        i = i + 1;
    }
    true
}

/// Decides whether a type may cross a serialization boundary under `flags`.
pub fn check_typed(typed: &Typed, flags: &Flags) -> (serializable: bool)
    ensures
        serializable == typed_serializable(*typed, *flags),
    decreases *typed, 1nat,
{
    let depth = count_pointers(&typed.modifiers);
    if depth > 0 {
        let is_base = match typed.value {
            TypedValue::Base => true,
            _ => false,
        };
        depth == 1 && is_base && check_pointee(&typed.name, flags)
    } else {
        match &typed.value {
            TypedValue::Base | TypedValue::Enum => true,
            TypedValue::Typedef(nested) => check_typed(nested, flags),
            TypedValue::Array(nested, _) => check_typed(nested, flags),
            TypedValue::Struct(members) => check_members(members, flags),
            TypedValue::Union(members) => check_members(members, flags),
            TypedValue::Function(_) | TypedValue::Circular => false,
        }
    }
}

/// Decides whether a signature may cross a serialization boundary: its
/// return type and every parameter must.
pub fn check(function: &Function, flags: &Flags) -> (serializable: bool)
    ensures
        serializable == function_serializable(*function, *flags),
{
    check_typed(&function.typed, flags) && check_members(&function.parameters, flags)
}

/// One member with a non-serializable type makes the whole list fail.
pub proof fn lemma_member_rejects(members: Vec<Parameter>, i: int, n: int, flags: Flags)
    requires
        0 <= i < n <= members@.len(),
        !typed_serializable(members@[i].typed, flags),
    ensures
        !members_serializable(members, n, flags),
    decreases n,
{
    if i < n - 1 {
        lemma_member_rejects(members, i, n - 1, flags);
    }
}

/// A list of members is serializable exactly when each member's type is.
pub proof fn lemma_members_conjunction(members: Vec<Parameter>, n: int, flags: Flags)
    requires
        0 <= n <= members@.len(),
    ensures
        members_serializable(members, n, flags) <==> forall|i: int|
            0 <= i < n ==> typed_serializable(#[trigger] members@[i].typed, flags),
    decreases n,
{
    if n > 0 {
        lemma_members_conjunction(members, n - 1, flags);
        if members_serializable(members, n, flags) {
            assert forall|i: int| 0 <= i < n implies typed_serializable(
                #[trigger] members@[i].typed,
                flags,
            ) by {}
        }
    }
}

/// Indirection of more than one level is never serializable, whatever the
/// switches say.
pub proof fn lemma_pointer_depth(t: Typed, flags: Flags)
    requires
        pointer_depth(t) > 1,
    ensures
        !typed_serializable(t, flags),
{
}

/// A pointer to anything but a base type is never serializable, whatever
/// the switches say.
pub proof fn lemma_structural_pointee(t: Typed, flags: Flags)
    requires
        pointer_depth(t) >= 1,
        !(t.value is Base),
    ensures
        !typed_serializable(t, flags),
{
}

/// With the basic-pointer switch on, every single-level pointer to a base
/// type is serializable, whatever the other two switches say.
pub proof fn lemma_basic_pointer_allows(t: Typed, flags: Flags)
    requires
        pointer_depth(t) == 1,
        t.value is Base,
        flags.allow_basic_str,
    ensures
        typed_serializable(t, flags),
{
}

/// With the three pointer switches off, no pointer type is serializable.
pub proof fn lemma_no_switch_no_pointer(t: Typed, flags: Flags)
    requires
        pointer_depth(t) >= 1,
        !flags.allow_char_str,
        !flags.allow_void_str,
        !flags.allow_basic_str,
    ensures
        !typed_serializable(t, flags),
{
}

/// Turning a pointer switch on never makes a serializable type
/// non-serializable.
pub proof fn lemma_policy_monotone(t: Typed, weak: Flags, strong: Flags)
    requires
        weak.allow_char_str ==> strong.allow_char_str,
        weak.allow_void_str ==> strong.allow_void_str,
        weak.allow_basic_str ==> strong.allow_basic_str,
        typed_serializable(t, weak),
    ensures
        typed_serializable(t, strong),
    decreases t,
{
    if pointer_depth(t) == 0 {
        match t.value {
            TypedValue::Typedef(nested) => lemma_policy_monotone(*nested, weak, strong),
            TypedValue::Array(nested, _) => lemma_policy_monotone(*nested, weak, strong),
            TypedValue::Struct(members) => lemma_policy_monotone_members(
                members,
                members@.len() as int,
                weak,
                strong,
            ),
            TypedValue::Union(members) => lemma_policy_monotone_members(
                members,
                members@.len() as int,
                weak,
                strong,
            ),
            _ => {},
        }
    }
}

/// The same for a list of members.
pub proof fn lemma_policy_monotone_members(
    members: Vec<Parameter>,
    n: int,
    weak: Flags,
    strong: Flags,
)
    requires
        0 <= n <= members@.len(),
        weak.allow_char_str ==> strong.allow_char_str,
        weak.allow_void_str ==> strong.allow_void_str,
        weak.allow_basic_str ==> strong.allow_basic_str,
        members_serializable(members, n, weak),
    ensures
        members_serializable(members, n, strong),
    decreases members, n,
{
    if n > 0 {
        lemma_policy_monotone_members(members, n - 1, weak, strong);
        lemma_policy_monotone(members@[n - 1].typed, weak, strong);
    }
}

/// The members of a struct or union type; of another type, none.
pub open spec fn members_of(t: Typed) -> Seq<Parameter> {
    match t.value {
        TypedValue::Struct(members) => members@,
        TypedValue::Union(members) => members@,
        _ => Seq::empty(),
    }
}

/// A struct or a union without pointer modifiers is serializable exactly
/// when the type of each of its members is.
pub proof fn lemma_struct_union_conjunction(t: Typed, flags: Flags)
    requires
        pointer_depth(t) == 0,
        t.value is Struct || t.value is Union,
    ensures
        typed_serializable(t, flags) <==> forall|i: int|
            0 <= i < members_of(t).len() ==> typed_serializable(
                #[trigger] members_of(t)[i].typed,
                flags,
            ),
{
    match t.value {
        TypedValue::Struct(members) => {
            lemma_members_conjunction(members, members@.len() as int, flags);
        },
        TypedValue::Union(members) => {
            lemma_members_conjunction(members, members@.len() as int, flags);
        },
        _ => {},
    }
}

/// Whether a self-referential node is met when a type is taken apart
/// through its aliases, array elements and members.
pub open spec fn reaches_circular(t: Typed) -> bool
    decreases t,
{
    match t.value {
        TypedValue::Circular => true,
        TypedValue::Typedef(nested) => reaches_circular(*nested),
        TypedValue::Array(nested, _) => reaches_circular(*nested),
        TypedValue::Struct(members) => members_reach_circular(members, members@.len() as int),
        TypedValue::Union(members) => members_reach_circular(members, members@.len() as int),
        _ => false,
    }
}

/// Whether one of the first `n` of `members` reaches a self-referential
/// node.
pub open spec fn members_reach_circular(members: Vec<Parameter>, n: int) -> bool
    decreases members, n,
{
    if n <= 0 || n > members@.len() {
        false
    } else {
        members_reach_circular(members, n - 1) || reaches_circular(members@[n - 1].typed)
    }
}

/// A type that reaches a self-referential node is never serializable.
pub proof fn lemma_circular_rejected(t: Typed, flags: Flags)
    requires
        reaches_circular(t),
    ensures
        !typed_serializable(t, flags),
    decreases t,
{
    if pointer_depth(t) == 0 {
        match t.value {
            TypedValue::Typedef(nested) => lemma_circular_rejected(*nested, flags),
            TypedValue::Array(nested, _) => lemma_circular_rejected(*nested, flags),
            TypedValue::Struct(members) => lemma_circular_member_rejected(
                members,
                members@.len() as int,
                flags,
            ),
            TypedValue::Union(members) => lemma_circular_member_rejected(
                members,
                members@.len() as int,
                flags,
            ),
            _ => {},
        }
    }
}

/// The same for a list of members.
pub proof fn lemma_circular_member_rejected(members: Vec<Parameter>, n: int, flags: Flags)
    requires
        0 <= n <= members@.len(),
        members_reach_circular(members, n),
    ensures
        !members_serializable(members, n, flags),
    decreases members, n,
{
    if n > 0 {
        if reaches_circular(members@[n - 1].typed) {
            lemma_circular_rejected(members@[n - 1].typed, flags);
        } else {
            lemma_circular_member_rejected(members, n - 1, flags);
        }
    }
}

} // verus!
