//! What holds of statements built by chaining clauses and compiling them.
use vstd::prelude::*;

use crate::chain::{
    lemma_len,
    set_fragment,
    space,
    values_fragment,
    where_fragment,
    QueryBlock,
};
use crate::factory::{insert_fragment, select_fragment, update_fragment, Model};
use crate::text::joined;

verus! {

/// Appending a clause to a chain adds one space and the clause's text to
/// what the chain compiles to.
pub proof fn lemma_compiled_push(c: QueryBlock, r: QueryBlock, t: Seq<char>)
    requires
        r.parts() == c.parts().push(t),
    ensures
        r.compiled() == c.compiled() + space() + t,
{
    lemma_len(c);
    assert(c.parts().push(t).drop_last() =~= c.parts());
}

/// Compiling a chain twice, with no append in between, gives the same text.
pub proof fn lemma_compile_idempotent(q: QueryBlock, first: String, second: String)
    requires
        first@ == q.compiled(),
        second@ == q.compiled(),
    ensures
        first@ == second@,
{
}

/// Appending `a` and then `b` to a chain compiles to the same text as a chain
/// whose fragments are those of the original followed by `a` and `b`
/// already linked: only the order of the appends decides the output.
pub proof fn lemma_append_order(
    c: QueryBlock,
    after_a: QueryBlock,
    after_b: QueryBlock,
    linked: QueryBlock,
    a: Seq<char>,
    b: Seq<char>,
)
    requires
        after_a.parts() == c.parts().push(a),
        after_b.parts() == after_a.parts().push(b),
        linked.parts() == c.parts() + seq![a, b],
    ensures
        after_b.compiled() == linked.compiled(),
        after_b.compiled() == c.compiled() + space() + a + space() + b,
{
    assert(linked.parts() =~= after_b.parts());
    lemma_compiled_push(c, after_a, a);
    lemma_compiled_push(after_a, after_b, b);
}

/// An INSERT without a column list followed by two values.
pub proof fn lemma_insert_values(
    model: Model,
    head: QueryBlock,
    q: QueryBlock,
    v1: String,
    v2: String,
)
    requires
        model.fields is None,
        head.parts() == seq![insert_fragment(model)],
        q.parts() == head.parts().push(values_fragment(seq![v1, v2])),
    ensures
        q.compiled() == "INSERT INTO "@ + model.name@ + " VALUES ("@ + v1@ + ", "@ + v2@ + ")"@,
{
    lemma_compiled_push(head, q, values_fragment(seq![v1, v2]));
    reveal_strlit(" VALUES (");
    reveal_strlit(" ");
    reveal_strlit("VALUES (");
    assert(joined(seq![v1@, v2@].drop_last(), ", "@) == v1@);
    assert(crate::text::views(seq![v1, v2]) =~= seq![v1@, v2@]);
    assert(head.compiled() == insert_fragment(model));
    assert(q.compiled() =~= "INSERT INTO "@ + model.name@ + " VALUES ("@ + v1@ + ", "@ + v2@ + ")"@);
}

/// A SELECT of all columns filtered by a condition.
pub proof fn lemma_select_where(model: Model, head: QueryBlock, q: QueryBlock, condition: String)
    requires
        model.fields is None,
        head.parts() == seq![select_fragment(model)],
        q.parts() == head.parts().push(where_fragment(condition@)),
    ensures
        q.compiled() == "SELECT * FROM "@ + model.name@ + " WHERE "@ + condition@,
{
    lemma_compiled_push(head, q, where_fragment(condition@));
    reveal_strlit(" WHERE ");
    reveal_strlit(" ");
    reveal_strlit("WHERE ");
    assert(head.compiled() == select_fragment(model));
    assert(q.compiled() =~= "SELECT * FROM "@ + model.name@ + " WHERE "@ + condition@);
}

/// An UPDATE that sets one column.
pub proof fn lemma_update_set(
    model: Model,
    head: QueryBlock,
    q: QueryBlock,
    column: String,
    value: String,
)
    requires
        model.fields is Some,
        head.parts() == seq![update_fragment(model)],
        q.parts() == head.parts().push(set_fragment(seq![(column, value)])),
    ensures
        q.compiled() == "UPDATE "@ + model.name@ + " SET "@ + column@ + " = "@ + value@,
{
    lemma_compiled_push(head, q, set_fragment(seq![(column, value)]));
    reveal_strlit(" SET ");
    reveal_strlit(" ");
    reveal_strlit("SET ");
    assert(crate::chain::assignments(seq![(column, value)]) =~= seq![
        crate::chain::assignment((column, value)),
    ]);
    assert(head.compiled() == update_fragment(model));
    assert(q.compiled() =~= "UPDATE "@ + model.name@ + " SET "@ + column@ + " = "@ + value@);
}

/// An UPDATE that sets one column, filtered by a condition.
pub proof fn lemma_update_set_where(
    model: Model,
    head: QueryBlock,
    with_set: QueryBlock,
    q: QueryBlock,
    column: String,
    value: String,
    condition: String,
)
    requires
        model.fields is Some,
        head.parts() == seq![update_fragment(model)],
        with_set.parts() == head.parts().push(set_fragment(seq![(column, value)])),
        q.parts() == with_set.parts().push(where_fragment(condition@)),
    ensures
        q.compiled() == "UPDATE "@ + model.name@ + " SET "@ + column@ + " = "@ + value@
            + " WHERE "@ + condition@,
{
    lemma_update_set(model, head, with_set, column, value);
    lemma_compiled_push(with_set, q, where_fragment(condition@));
    reveal_strlit(" WHERE ");
    reveal_strlit(" ");
    reveal_strlit("WHERE ");
    assert(q.compiled() =~= "UPDATE "@ + model.name@ + " SET "@ + column@ + " = "@ + value@
        + " WHERE "@ + condition@);
}

} // verus!
