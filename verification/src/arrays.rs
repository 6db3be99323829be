//! Laws of the array methods.
use vstd::prelude::*;
use crate::value::ValueModel;
use crate::numeric::ReplyModel;
use crate::machine::WorldModel;
use crate::vm::vm_call_method;

verus! {

proof fn lemma_join_is_not_another_method()
    ensures
        "join"@ != "push"@,
        "join"@ != "pop"@,
        "join"@ != "map"@,
        "join"@ != "filter"@,
        "join"@ != "forEach"@,
        "join"@ != "reduce"@,
        "join"@ != "includes"@,
{
    reveal_strlit("join");
    reveal_strlit("push");
    reveal_strlit("pop");
    reveal_strlit("map");
    reveal_strlit("filter");
    reveal_strlit("forEach");
    reveal_strlit("reduce");
    reveal_strlit("includes");
    assert("join"@[0] != "push"@[0]);
    assert("join"@.len() != "pop"@.len());
    assert("join"@.len() != "map"@.len());
    assert("join"@.len() != "filter"@.len());
    assert("join"@.len() != "forEach"@.len());
    assert("join"@.len() != "reduce"@.len());
    assert("join"@.len() != "includes"@.len());
}

/// `arr.join()` separates the elements with commas: for every array, calling
/// `join` without an argument gives the same result, in the same world, as
/// calling it with the separator `","`.
#[verifier::rlimit(100)]
pub proof fn law_join_defaults_to_comma(arr: Seq<ValueModel>, fuel: nat, w: WorldModel, tape: Seq<ReplyModel>)
    ensures
        vm_call_method(ValueModel::Array(arr), "join"@, Seq::empty(), fuel, w, tape)
            == vm_call_method(ValueModel::Array(arr), "join"@, seq![ValueModel::String(","@)], fuel, w, tape),
{
    lemma_join_is_not_another_method();
}

/// Joining two strings without a separator argument puts a comma between them.
#[verifier::rlimit(100)]
pub proof fn law_join_two_strings(a: Seq<char>, b: Seq<char>, fuel: nat, w: WorldModel, tape: Seq<ReplyModel>)
    ensures
        vm_call_method(ValueModel::Array(seq![ValueModel::String(a), ValueModel::String(b)]), "join"@, Seq::empty(), fuel, w, tape)
            == Ok::<(WorldModel, (ValueModel, ValueModel)), crate::machine::HaltModel>((
                w,
                (ValueModel::String(a + ","@ + b), ValueModel::Array(seq![ValueModel::String(a), ValueModel::String(b)])),
            )),
{
    lemma_join_is_not_another_method();
    let arr = seq![ValueModel::String(a), ValueModel::String(b)];
    assert(arr.drop_last() =~= seq![ValueModel::String(a)]);
    assert(arr.drop_last().drop_last() =~= Seq::<ValueModel>::empty());
    let a1 = arr.drop_last();
    assert(crate::convert::vm_join_primitive(Seq::<ValueModel>::empty(), ","@, w, tape) == Ok::<(WorldModel, Seq<char>), crate::machine::HaltModel>((w, Seq::<char>::empty())));
    assert(crate::convert::vm_primitive_string(ValueModel::String(a), w, tape) == Ok::<(WorldModel, Seq<char>), crate::machine::HaltModel>((w, a)));
    assert(crate::convert::vm_primitive_string(ValueModel::String(b), w, tape) == Ok::<(WorldModel, Seq<char>), crate::machine::HaltModel>((w, b)));
    assert(a1.last() == ValueModel::String(a) && a1.len() == 1);
    assert(arr.last() == ValueModel::String(b));
    assert(crate::convert::vm_join_primitive(arr.drop_last(), ","@, w, tape) == Ok::<(WorldModel, Seq<char>), crate::machine::HaltModel>((w, a)));
    assert(crate::convert::vm_join_primitive(arr, ","@, w, tape) == Ok::<(WorldModel, Seq<char>), crate::machine::HaltModel>((w, a + ","@ + b)));
}

} // verus!
