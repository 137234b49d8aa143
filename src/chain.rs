//! A statement under construction: a singly linked chain of clause nodes,
//! each holding one rendered fragment of text.
use vstd::prelude::*;

use crate::text::{joined, comma_list, join_strings, views};

verus! {

/// Which kind of statement a chain builds.
#[derive(Clone, Copy, Debug, PartialEq, Eq, Structural)]
pub enum StatementType {
    Select,
    Update,
    Delete,
    Insert,
}

/// One clause of a statement, and the clauses that follow it.
pub struct QueryBlock {
    pub query_part: String,
    pub secondary_part: Option<Box<QueryBlock>>,
    pub statement_type: StatementType,
}

/// The separator placed between two fragments of a compiled statement.
pub open spec fn space() -> Seq<char> {
    " "@
}

/// The fragment that lists the values of one row.
pub open spec fn values_fragment(values: Seq<String>) -> Seq<char> {
    "VALUES ("@ + comma_list(values) + ")"@
}

/// The fragment that filters on a condition, taken verbatim.
pub open spec fn where_fragment(condition: Seq<char>) -> Seq<char> {
    "WHERE "@ + condition
}

/// One assignment `column = value` of a SET clause.
pub open spec fn assignment(pair: (String, String)) -> Seq<char> {
    pair.0@ + " = "@ + pair.1@
}

/// The assignments of `arguments`, in the order given.
pub open spec fn assignments(arguments: Seq<(String, String)>) -> Seq<Seq<char>> {
    arguments.map_values(|p: (String, String)| assignment(p))
}

/// The fragment that assigns each column its value, in the order given.
pub open spec fn set_fragment(arguments: Seq<(String, String)>) -> Seq<char> {
    "SET "@ + joined(assignments(arguments), ", "@)
}

impl QueryBlock {
    /// The number of nodes in the chain.
    pub open spec fn len(self) -> nat
        decreases self,
    {
        match self.secondary_part {
            Some(next) => 1 + next.len(),
            None => 1,
        }
    }

    /// The fragments of the chain, from head to tail.
    pub open spec fn parts(self) -> Seq<Seq<char>>
        decreases self,
    {
        match self.secondary_part {
            Some(next) => seq![self.query_part@] + next.parts(),
            None => seq![self.query_part@],
        }
    }

    /// The statement kind that each node carries, from head to tail.
    pub open spec fn kinds(self) -> Seq<StatementType>
        decreases self,
    {
        match self.secondary_part {
            Some(next) => seq![self.statement_type] + next.kinds(),
            None => seq![self.statement_type],
        }
    }

    /// Every node carries the kind of the head.
    pub open spec fn well_formed(self) -> bool {
        forall|i: int| 0 <= i < self.kinds().len() ==> self.kinds()[i] == self.statement_type
    }

    /// The text that the chain compiles to.
    pub open spec fn compiled(self) -> Seq<char> {
        joined(self.parts(), space())
    }

    /// The node `d` links down from the head.
    pub open spec fn node_at(self, d: nat) -> QueryBlock
        decreases self,
    {
        if d == 0 {
            self
        } else {
            match self.secondary_part {
                Some(next) => next.node_at((d - 1) as nat),
                None => self,
            }
        }
    }

    /// The chain with the node `d` links down from the head, and all after it,
    /// replaced by `n`.
    pub open spec fn replace_at(self, d: nat, n: QueryBlock) -> QueryBlock
        decreases self,
    {
        if d == 0 {
            n
        } else {
            match self.secondary_part {
                Some(next) => QueryBlock {
                    query_part: self.query_part,
                    secondary_part: Some(Box::new(next.replace_at((d - 1) as nat, n))),
                    statement_type: self.statement_type,
                },
                None => n,
            }
        }
    }
}

/// Every chain has at least one node, and as many fragments and kinds as nodes.
pub proof fn lemma_len(c: QueryBlock)
    ensures
        c.len() >= 1,
        c.parts().len() == c.len(),
        c.kinds().len() == c.len(),
    decreases c,
{
    match c.secondary_part {
        Some(next) => lemma_len(*next),
        None => {},
    }
}

/// Replacing a node keeps the fragments and kinds of the nodes above it.
proof fn lemma_replace_at(c: QueryBlock, d: nat, n: QueryBlock)
    requires
        d < c.len(),
    ensures
        c.replace_at(d, n).parts() == c.parts().take(d as int) + n.parts(),
        c.replace_at(d, n).kinds() == c.kinds().take(d as int) + n.kinds(),
    decreases c,
{
    lemma_len(c);
    if d > 0 {
        match c.secondary_part {
            Some(next) => {
                lemma_replace_at(*next, (d - 1) as nat, n);
                assert(c.parts().take(d as int) =~= seq![c.query_part@] + next.parts().take(d - 1));
                assert(c.kinds().take(d as int) =~= seq![c.statement_type] + next.kinds().take(d - 1));
                assert(c.replace_at(d, n).parts() =~= c.parts().take(d as int) + n.parts());
                assert(c.replace_at(d, n).kinds() =~= c.kinds().take(d as int) + n.kinds());
            },
            None => {},
        }
    } else {
        assert(c.parts().take(0) + n.parts() =~= n.parts());
        assert(c.kinds().take(0) + n.kinds() =~= n.kinds());
    }
}

/// The fragments from depth `d` on are those of the node at depth `d`.
proof fn lemma_node_parts(c: QueryBlock, d: nat)
    requires
        d < c.len(),
    ensures
        c.node_at(d).parts() == c.parts().skip(d as int),
        c.node_at(d).parts()[0] == c.node_at(d).query_part@,
        c.node_at(d).kinds() == c.kinds().skip(d as int),
        c.node_at(d).kinds()[0] == c.node_at(d).statement_type,
    decreases c,
{
    lemma_len(c);
    match c.secondary_part {
        Some(next) => {
            if d > 0 {
                lemma_node_parts(*next, (d - 1) as nat);
                assert(next.parts() =~= c.parts().skip(1));
                assert(c.parts().skip(d as int) =~= next.parts().skip(d - 1));
                assert(next.kinds() =~= c.kinds().skip(1));
                assert(c.kinds().skip(d as int) =~= next.kinds().skip(d - 1));
            } else {
                assert(c.parts().skip(0) =~= c.parts());
                assert(c.kinds().skip(0) =~= c.kinds());
            }
        },
        None => {
            assert(c.parts().skip(0) =~= c.parts());
            assert(c.kinds().skip(0) =~= c.kinds());
        },
    }
}

/// Stepping from the node at depth `d` to its successor.
proof fn lemma_step(c: QueryBlock, d: nat, x: QueryBlock)
    requires
        d + 1 < c.len(),
    ensures
        c.node_at(d).secondary_part is Some,
        *c.node_at(d).secondary_part.unwrap() == c.node_at(d + 1),
        c.replace_at(d, QueryBlock {
            query_part: c.node_at(d).query_part,
            secondary_part: Some(Box::new(x)),
            statement_type: c.node_at(d).statement_type,
        }) == c.replace_at(d + 1, x),
    decreases c,
{
    lemma_len(c);
    match c.secondary_part {
        Some(next) => {
            if d > 0 {
                lemma_step(*next, (d - 1) as nat, x);
                assert(c.node_at(d) == next.node_at((d - 1) as nat));
                assert(c.node_at(d + 1) == next.node_at(d));
                assert(((d + 1 - 1) as nat) == d);
                assert(c.replace_at(d + 1, x).secondary_part == Some(
                    Box::new(next.replace_at(d, x)),
                ));
            } else {
                assert(c.node_at(1) == next.node_at(0));
                assert(next.replace_at(0, x) == x);
                assert(c.replace_at(1, x).secondary_part == Some(Box::new(x)));
            }
        },
        None => {},
    }
}

/// The chain from depth `d` on has `len - d` nodes.
proof fn lemma_tail(c: QueryBlock, d: nat)
    requires
        d < c.len(),
    ensures
        c.node_at(d).len() == c.len() - d,
    decreases c,
{
    lemma_len(c);
    if d > 0 {
        match c.secondary_part {
            Some(next) => lemma_tail(*next, (d - 1) as nat),
            None => {},
        }
    }
}

/// Walks from the head of `statement` to its last node and hands out that node.
/// Whatever the caller then makes of the last node takes its place in the chain.
pub fn traverse_to_the_latest_node(statement: &mut QueryBlock) -> (r: &mut QueryBlock)
    ensures
        r.secondary_part is None,
        *r == old(statement).node_at((old(statement).len() - 1) as nat),
        *final(statement) == old(statement).replace_at(
            (old(statement).len() - 1) as nat,
            *final(r),
        ),
{
    let ghost start = *statement;
    let ghost mut d: nat = 0;
    proof {
        lemma_len(start);
    }
    let mut ret = statement;
    while ret.secondary_part.is_some()
        invariant
            d < start.len(),
            *ret == start.node_at(d),
            *final(statement) == start.replace_at(d, *final(ret)),
        decreases start.len() - d,
    {
        proof {
            lemma_tail(start, d);
            lemma_len(*start.node_at(d).secondary_part.unwrap());
        }
        let ghost cur = *ret;
        let ghost fin = *final(ret);
        ret = ret.secondary_part.as_mut().unwrap();
        proof {
            lemma_step(start, d, *final(ret));
            assert(fin == QueryBlock {
                query_part: cur.query_part,
                secondary_part: Some(Box::new(*final(ret))),
                statement_type: cur.statement_type,
            });
            d = d + 1;
        }
    }
    proof {
        lemma_tail(start, d);
    }
    ret
}

/// Renders `statement` as one string: the fragments from head to tail,
/// separated by single spaces.
pub fn compile_statement(statement: &QueryBlock) -> (r: String)
    ensures
        r@ == statement.compiled(),
{
    let ghost parts = statement.parts();
    proof {
        lemma_len(*statement);
        lemma_node_parts(*statement, 0);
        assert(parts.take(1).drop_last() =~= Seq::<Seq<char>>::empty());
    }
    let mut out = String::from_str(statement.query_part.as_str());
    let mut cur: &QueryBlock = statement;
    let ghost mut d: nat = 0;
    loop
        invariant
            d < statement.len(),
            parts == statement.parts(),
            parts.len() == statement.len(),
            *cur == statement.node_at(d),
            out@ == joined(parts.take(d as int + 1), space()),
        ensures
            out@ == joined(parts, space()),
        decreases statement.len() - d,
    {
        proof {
            lemma_tail(*statement, d);
        }
        match &cur.secondary_part {
            Some(next) => {
                proof {
                    lemma_len(**next);
                    lemma_step(*statement, d, **next);
                    lemma_node_parts(*statement, d + 1);
                    assert(parts.take(d as int + 2).drop_last() =~= parts.take(d as int + 1));
                }
                out.append(" ");
                out.append(next.query_part.as_str());
                cur = next;
                proof {
                    d = d + 1;
                }
            },
            None => {
                assert(parts.take(d as int + 1) =~= parts);
                break ;
            },
        }
    }
    out
}

impl QueryBlock {
    /// Links a new last node holding `text`, of the head's kind.
    fn append_clause(self, text: String) -> (r: QueryBlock)
        ensures
            r.parts() == self.parts().push(text@),
            r.kinds() == self.kinds().push(self.statement_type),
            r.query_part == self.query_part,
            r.statement_type == self.statement_type,
            self.well_formed() ==> r.well_formed(),
    {
        let ghost start = self;
        let mut head = self;
        let block = QueryBlock {
            query_part: text,
            secondary_part: None,
            statement_type: head.statement_type,
        };
        proof {
            lemma_len(start);
        }
        let latest = traverse_to_the_latest_node(&mut head);
        latest.secondary_part = Some(Box::new(block));
        proof {
            let d = (start.len() - 1) as nat;
            lemma_node_parts(start, d);
            lemma_replace_at(start, d, *latest);
            assert(block.parts() == seq![text@]);
            assert(block.kinds() == seq![start.statement_type]);
            assert(latest.parts() =~= seq![start.parts()[d as int], text@]);
            assert(latest.kinds() =~= seq![start.kinds()[d as int], start.statement_type]);
            assert(head.parts() =~= start.parts().push(text@));
            assert(head.kinds() =~= start.kinds().push(start.statement_type));
        }
        head
    }

    /// Appends the clause `VALUES (v1, v2, ...)`, the values joined verbatim.
    pub fn values(self, values: &Vec<String>) -> (r: QueryBlock)
        ensures
            r.parts() == self.parts().push(values_fragment(values@)),
            r.kinds() == self.kinds().push(self.statement_type),
            r.statement_type == self.statement_type,
            self.well_formed() ==> r.well_formed(),
    {
        let mut text = String::from_str("VALUES (");
        let list = join_strings(values, ", ");
        text.append(list.as_str());
        text.append(")");
        self.append_clause(text)
    }

    /// Appends the clause `SET a = v, b = w, ...`, one assignment per pair,
    /// in the order given.
    pub fn set(self, arguments: &Vec<(String, String)>) -> (r: QueryBlock)
        ensures
            r.parts() == self.parts().push(set_fragment(arguments@)),
            r.kinds() == self.kinds().push(self.statement_type),
            r.statement_type == self.statement_type,
            self.well_formed() ==> r.well_formed(),
    {
        let mut rendered: Vec<String> = Vec::new();
        let mut i: usize = 0;
        while i < arguments.len()
            invariant
                0 <= i <= arguments.len(),
                rendered@.len() == i,
                forall|j: int| 0 <= j < i ==> #[trigger] rendered@[j]@ == assignment(arguments@[j]),
            decreases arguments.len() - i,
        {
            let mut one = String::from_str(arguments[i].0.as_str());
            one.append(" = ");
            one.append(arguments[i].1.as_str());
            rendered.push(one);
            i = i + 1;
        }
        assert(views(rendered@) =~= assignments(arguments@));
        let mut text = String::from_str("SET ");
        let list = join_strings(&rendered, ", ");
        text.append(list.as_str());
        self.append_clause(text)
    }

    /// Appends the clause `WHERE condition`, the condition taken verbatim.
    pub fn where_clause(self, where_clause: &String) -> (r: QueryBlock)
        ensures
            r.parts() == self.parts().push(where_fragment(where_clause@)),
            r.kinds() == self.kinds().push(self.statement_type),
            r.statement_type == self.statement_type,
            self.well_formed() ==> r.well_formed(),
    {
        let mut text = String::from_str("WHERE ");
        text.append(where_clause.as_str());
        self.append_clause(text)
    }
}

} // verus!
