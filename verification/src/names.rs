//! Why the generated function names do not collide.

use vstd::prelude::*;
use crate::document::Node;
use crate::parser::{mangled, Children, Command};
use crate::text::{joined, texts};

verus! {

/// A name without an underscore.
pub open spec fn plain_name(name: Seq<char>) -> bool {
    forall|i: int| 0 <= i < name.len() ==> name[i] != '_'
}

/// A path whose names are all without an underscore.
pub open spec fn plain_path(path: Seq<Seq<char>>) -> bool {
    forall|i: int| 0 <= i < path.len() ==> plain_name(#[trigger] path[i])
}

/// In the join of two or more plain names, the last underscore stands right
/// before the last name.
proof fn lemma_last_separator(path: Seq<Seq<char>>)
    requires
        plain_path(path),
        path.len() >= 2,
    ensures
        joined(path, "_"@) == joined(path.drop_last(), "_"@) + seq!['_'] + path.last(),
        joined(path, "_"@).len() == joined(path.drop_last(), "_"@).len() + 1 + path.last().len(),
        joined(path, "_"@)[joined(path.drop_last(), "_"@).len() as int] == '_',
        forall|j: int|
            joined(path.drop_last(), "_"@).len() < j < joined(path, "_"@).len() ==> joined(
                path,
                "_"@,
            )[j] != '_',
{
    reveal_strlit("_");
    assert("_"@ =~= seq!['_']);
    let head = joined(path.drop_last(), "_"@);
    let whole = joined(path, "_"@);
    assert(whole == head + "_"@ + path.last());
    assert(plain_name(path[path.len() - 1]));
    assert forall|j: int| head.len() < j < whole.len() implies whole[j] != '_' by {
        assert(whole[j] == path.last()[j - head.len() - 1]);
    }
}

/// Joining plain names with underscores loses nothing: the names can be
/// read back from the result.
proof fn lemma_joined_injective(p: Seq<Seq<char>>, q: Seq<Seq<char>>)
    requires
        plain_path(p),
        plain_path(q),
        p.len() >= 1,
        q.len() >= 1,
        joined(p, "_"@) == joined(q, "_"@),
    ensures
        p == q,
    decreases p.len(),
{
    if p.len() == 1 && q.len() == 1 {
        assert(p =~= q);
    } else if p.len() == 1 {
        lemma_last_separator(q);
        assert(plain_name(p[0]));
        let k = joined(q.drop_last(), "_"@).len() as int;
        assert(joined(p, "_"@)[k] == '_');
    } else if q.len() == 1 {
        lemma_last_separator(p);
        assert(plain_name(q[0]));
        let k = joined(p.drop_last(), "_"@).len() as int;
        assert(joined(q, "_"@)[k] == '_');
    } else {
        lemma_last_separator(p);
        lemma_last_separator(q);
        let whole = joined(p, "_"@);
        let hp = joined(p.drop_last(), "_"@);
        let hq = joined(q.drop_last(), "_"@);
        assert(hp.len() == hq.len()) by {
            if hp.len() < hq.len() {
                assert(whole[hq.len() as int] == '_');
            } else if hq.len() < hp.len() {
                assert(whole[hp.len() as int] == '_');
            }
        }
        assert(hp =~= whole.take(hp.len() as int));
        assert(hq =~= whole.take(hp.len() as int));
        assert(p.last() =~= whole.skip(hp.len() as int + 1));
        assert(q.last() =~= whole.skip(hp.len() as int + 1));
        assert(plain_path(p.drop_last())) by {
            assert forall|i: int| 0 <= i < p.drop_last().len() implies plain_name(
                #[trigger] p.drop_last()[i],
            ) by {
                assert(p.drop_last()[i] == p[i]);
            }
        }
        assert(plain_path(q.drop_last())) by {
            assert forall|i: int| 0 <= i < q.drop_last().len() implies plain_name(
                #[trigger] q.drop_last()[i],
            ) by {
                assert(q.drop_last()[i] == q[i]);
            }
        }
        lemma_joined_injective(p.drop_last(), q.drop_last());
        assert(p =~= p.drop_last().push(p.last()));
        assert(q =~= q.drop_last().push(q.last()));
    }
}

/// Two commands whose paths differ get different function names, provided
/// that no name on either path holds an underscore. (With underscores in
/// names the paths `a`, `b_c` and `a_b`, `c` would share one function name.)
pub proof fn lemma_mangled_injective(p: Seq<Seq<char>>, q: Seq<Seq<char>>)
    requires
        plain_path(p),
        plain_path(q),
        mangled(p) == mangled(q),
    ensures
        p == q,
{
    reveal_strlit("_");
    assert("_"@ =~= seq!['_']);
    if p.len() == 1 && q.len() == 1 {
        assert(p =~= q);
    } else if p.len() == 1 {
        assert(plain_name(p[0]));
        assert(mangled(q)[0] == '_');
    } else if q.len() == 1 {
        assert(plain_name(q[0]));
        assert(mangled(p)[0] == '_');
    } else {
        let jp = joined(p, "_"@);
        let jq = joined(q, "_"@);
        assert(mangled(p).len() == jp.len() + 2);
        assert(mangled(q).len() == jq.len() + 2);
        assert(jp =~= mangled(p).subrange(1, 1 + jp.len() as int));
        assert(jq =~= mangled(q).subrange(1, 1 + jq.len() as int));
        if p.len() == 0 && q.len() == 0 {
            assert(p =~= q);
        } else if p.len() == 0 {
            lemma_last_separator(q);
        } else if q.len() == 0 {
            lemma_last_separator(p);
        } else {
            lemma_joined_injective(p, q);
        }
    }
}

impl Command {
    /// Whether every subcommand below this command has as its path the
    /// path of its parent and then its own name.
    pub open spec fn paths_consistent(&self) -> bool
        decreases self,
    {
        match self.children {
            Children::Subcmds(subs) => {
                &&& forall|i: int|
                    0 <= i < subs@.len() ==> texts((#[trigger] subs@[i]).path@) == texts(
                        self.path@,
                    ).push(subs@[i].name@)
                &&& forall|i: int|
                    0 <= i < subs@.len() ==> (#[trigger] subs@[i]).paths_consistent()
            },
            Children::Body(_) => true,
        }
    }

    /// Whether the names below this command can be told apart: none holds
    /// an underscore, and no two subcommands of one command share a name.
    pub open spec fn names_apart(&self) -> bool
        decreases self,
    {
        match self.children {
            Children::Subcmds(subs) => {
                &&& forall|i: int| 0 <= i < subs@.len() ==> plain_name((#[trigger] subs@[i]).name@)
                &&& forall|i: int, j: int|
                    0 <= i < subs@.len() && 0 <= j < subs@.len() && i != j ==> (
                    #[trigger] subs@[i]).name@ != (#[trigger] subs@[j]).name@
                &&& forall|i: int| 0 <= i < subs@.len() ==> (#[trigger] subs@[i]).names_apart()
            },
            Children::Body(_) => true,
        }
    }

    /// Whether the tree below this command is one whose functions can be
    /// told apart.
    pub open spec fn well_formed(&self) -> bool {
        self.paths_consistent() && self.names_apart()
    }

    /// The command that is reached from this one by going down, at each
    /// step, to the subcommand with the next index of `route`; `None` where
    /// the route leaves the tree.
    pub open spec fn descendant(&self, route: Seq<int>) -> Option<Command>
        decreases route.len(),
    {
        if route.len() == 0 {
            Some(*self)
        } else if 0 <= route[0] < self.subcommands().len() {
            self.subcommands()[route[0]].descendant(route.skip(1))
        } else {
            None
        }
    }
}

/// In a well-formed tree the path of a command grows by one name with each
/// step down, and stays without underscores.
proof fn lemma_descendant_path(root: Command, route: Seq<int>)
    requires
        root.well_formed(),
        plain_path(texts(root.path@)),
        root.descendant(route) is Some,
    ensures
        texts(root.descendant(route)->0.path@).len() == texts(root.path@).len() + route.len(),
        texts(root.descendant(route)->0.path@).take(texts(root.path@).len() as int) == texts(
            root.path@,
        ),
        plain_path(texts(root.descendant(route)->0.path@)),
        root.descendant(route)->0.well_formed(),
    decreases route.len(),
{
    let top = texts(root.path@);
    if route.len() == 0 {
        assert(top.take(top.len() as int) =~= top);
    } else {
        let child = root.subcommands()[route[0]];
        let below = texts(child.path@);
        assert(below == top.push(child.name@));
        assert(plain_path(below)) by {
            assert forall|i: int| 0 <= i < below.len() implies plain_name(#[trigger] below[i]) by {
                if i < top.len() {
                    assert(below[i] == top[i]);
                }
            }
        }
        lemma_descendant_path(child, route.skip(1));
        let found = texts(root.descendant(route)->0.path@);
        assert(found.take(top.len() as int) =~= found.take(below.len() as int).take(
            top.len() as int,
        ));
        assert(below.take(top.len() as int) =~= top);
    }
}

/// In a well-formed tree two different routes from one command lead to
/// commands with different paths.
proof fn lemma_routes_part(root: Command, first: Seq<int>, second: Seq<int>)
    requires
        root.well_formed(),
        plain_path(texts(root.path@)),
        root.descendant(first) is Some,
        root.descendant(second) is Some,
        first != second,
    ensures
        texts(root.descendant(first)->0.path@) != texts(root.descendant(second)->0.path@),
    decreases first.len(),
{
    lemma_descendant_path(root, first);
    lemma_descendant_path(root, second);
    let top = texts(root.path@);
    if first.len() == second.len() {
        if first.len() == 0 {
            assert(first =~= second);
        } else {
            let a = root.subcommands()[first[0]];
            let b = root.subcommands()[second[0]];
            assert(texts(a.path@) == top.push(a.name@));
            assert(texts(b.path@) == top.push(b.name@));
            assert(plain_path(texts(a.path@))) by {
                assert forall|i: int| 0 <= i < texts(a.path@).len() implies plain_name(
                    #[trigger] texts(a.path@)[i],
                ) by {
                    if i < top.len() {
                        assert(texts(a.path@)[i] == top[i]);
                    }
                }
            }
            assert(plain_path(texts(b.path@))) by {
                assert forall|i: int| 0 <= i < texts(b.path@).len() implies plain_name(
                    #[trigger] texts(b.path@)[i],
                ) by {
                    if i < top.len() {
                        assert(texts(b.path@)[i] == top[i]);
                    }
                }
            }
            if first[0] == second[0] {
                assert(first.skip(1) != second.skip(1)) by {
                    if first.skip(1) == second.skip(1) {
                        assert(first =~= seq![first[0]] + first.skip(1));
                        assert(second =~= seq![second[0]] + second.skip(1));
                    }
                }
                lemma_routes_part(a, first.skip(1), second.skip(1));
            } else {
                lemma_descendant_path(a, first.skip(1));
                lemma_descendant_path(b, second.skip(1));
                let pa = texts(root.descendant(first)->0.path@);
                let pb = texts(root.descendant(second)->0.path@);
                let k = top.len() as int;
                assert(pa.take(k + 1)[k] == pa[k]);
                assert(pb.take(k + 1)[k] == pb[k]);
                assert(top.push(a.name@)[k] == a.name@);
                assert(top.push(b.name@)[k] == b.name@);
            }
        }
    }
}

/// No two commands of a well-formed tree share a function name: from a
/// command whose own path holds no underscore, different routes lead to
/// commands with different function names.
pub proof fn lemma_function_names_differ(root: Command, first: Seq<int>, second: Seq<int>)
    requires
        root.well_formed(),
        plain_path(texts(root.path@)),
        root.descendant(first) is Some,
        root.descendant(second) is Some,
        first != second,
    ensures
        mangled(texts(root.descendant(first)->0.path@)) != mangled(
            texts(root.descendant(second)->0.path@),
        ),
{
    lemma_descendant_path(root, first);
    lemma_descendant_path(root, second);
    lemma_routes_part(root, first, second);
    let pa = texts(root.descendant(first)->0.path@);
    let pb = texts(root.descendant(second)->0.path@);
    if mangled(pa) == mangled(pb) {
        lemma_mangled_injective(pa, pb);
    }
}

/// No command below one top-level command shares a function name with a
/// command below another: where the paths of two well-formed trees begin
/// with different names, any two commands of the one and of the other have
/// different function names.
pub proof fn lemma_function_names_differ_across_trees(
    one: Command,
    other: Command,
    first: Seq<int>,
    second: Seq<int>,
)
    requires
        one.well_formed(),
        other.well_formed(),
        plain_path(texts(one.path@)),
        plain_path(texts(other.path@)),
        one.path@.len() >= 1,
        other.path@.len() >= 1,
        one.path@[0]@ != other.path@[0]@,
        one.descendant(first) is Some,
        other.descendant(second) is Some,
    ensures
        mangled(texts(one.descendant(first)->0.path@)) != mangled(
            texts(other.descendant(second)->0.path@),
        ),
{
    lemma_descendant_path(one, first);
    lemma_descendant_path(other, second);
    let pa = texts(one.descendant(first)->0.path@);
    let pb = texts(other.descendant(second)->0.path@);
    assert(pa[0] == pa.take(texts(one.path@).len() as int)[0]);
    assert(pb[0] == pb.take(texts(other.path@).len() as int)[0]);
    if mangled(pa) == mangled(pb) {
        lemma_mangled_injective(pa, pb);
    }
}

/// A command that was read from a node has consistent paths all the way
/// down.
pub proof fn lemma_parsed_paths_consistent(cmd: Command, node: Node, parent: Seq<Seq<char>>)
    requires
        cmd.parsed_from(node, parent),
    ensures
        texts(cmd.path@) == parent.push(cmd.name@),
        cmd.paths_consistent(),
    decreases cmd,
{
    match cmd.children {
        Children::Subcmds(subs) => {
            assert forall|i: int| 0 <= i < subs@.len() implies texts(
                (#[trigger] subs@[i]).path@,
            ) == texts(cmd.path@).push(subs@[i].name@) && subs@[i].paths_consistent() by {
                assert(subs@[i].parsed_from(node.children->0@[i], texts(cmd.path@)));
                lemma_parsed_paths_consistent(subs@[i], node.children->0@[i], texts(cmd.path@));
            }
        },
        Children::Body(_) => {},
    }
}

} // verus!
