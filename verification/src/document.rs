//! Structured documents: what a manifest or a module file holds once its text
//! has been parsed.

use crate::text::same_text;
use vstd::prelude::*;

verus! {

/// The mathematical content of a document.
pub enum Tree {
    Null,
    Bool(bool),
    /// A number, by its decimal text.
    Number(Seq<char>),
    Text(Seq<char>),
    /// A date or time, by its text.
    Moment(Seq<char>),
    List(Seq<Tree>),
    /// The members of a table, each a key with its value.
    Table(Seq<(Seq<char>, Tree)>),
}

/// A document in memory.
#[derive(Debug, PartialEq, Eq)]
pub enum Node {
    Null,
    Bool(bool),
    /// A number, by its decimal text.
    Number(String),
    Text(String),
    /// A date or time, by its text.
    Moment(String),
    List(Vec<Node>),
    Table(Vec<Member>),
}

/// One member of a table.
#[derive(Debug, PartialEq, Eq)]
pub struct Member {
    pub key: String,
    pub value: Node,
}

/// The content of a document in memory.
pub open spec fn tree_of(node: Node) -> Tree
    decreases node,
{
    match node {
        Node::Null => Tree::Null,
        Node::Bool(b) => Tree::Bool(b),
        Node::Number(text) => Tree::Number(text@),
        Node::Text(text) => Tree::Text(text@),
        Node::Moment(text) => Tree::Moment(text@),
        Node::List(items) => Tree::List(
            Seq::new(
                items@.len(),
                |i: int|
                    if 0 <= i < items@.len() {
                        tree_of(items@[i])
                    } else {
                        Tree::Null
                    },
            ),
        ),
        Node::Table(members) => Tree::Table(
            Seq::new(
                members@.len(),
                |i: int|
                    if 0 <= i < members@.len() {
                        (members@[i].key@, tree_of(members@[i].value))
                    } else {
                        (Seq::empty(), Tree::Null)
                    },
            ),
        ),
    }
}

impl View for Node {
    type V = Tree;

    open spec fn view(&self) -> Tree {
        tree_of(*self)
    }
}

/// The value of the first member from position `from` on whose key is `key`.
pub open spec fn member_from(members: Seq<(Seq<char>, Tree)>, key: Seq<char>, from: int) -> Option<
    Tree,
>
    decreases members.len() - from,
{
    if from < 0 || from >= members.len() {
        None
    } else if members[from].0 == key {
        Some(members[from].1)
    } else {
        member_from(members, key, from + 1)
    }
}

impl Tree {
    /// The value under `key` where this is a table that has such a member.
    pub open spec fn field(self, key: Seq<char>) -> Option<Tree> {
        match self {
            Tree::Table(members) => member_from(members, key, 0),
            _ => None,
        }
    }

    /// The first item where this is a list that is not empty.
    pub open spec fn first(self) -> Option<Tree> {
        match self {
            Tree::List(items) => if items.len() > 0 {
                Some(items[0])
            } else {
                None
            },
            _ => None,
        }
    }

    /// The characters where this is a text.
    pub open spec fn as_text(self) -> Option<Seq<char>> {
        match self {
            Tree::Text(text) => Some(text),
            _ => None,
        }
    }

    /// The decimal text where this is a number.
    pub open spec fn as_number(self) -> Option<Seq<char>> {
        match self {
            Tree::Number(text) => Some(text),
            _ => None,
        }
    }

    /// A text as it stands, a number by its decimal text, nothing otherwise.
    pub open spec fn scalar_text(self) -> Option<Seq<char>> {
        match self {
            Tree::Text(text) => Some(text),
            Tree::Number(text) => Some(text),
            _ => None,
        }
    }

    /// The text under `key`, where that member is a text.
    pub open spec fn text_under(self, key: Seq<char>) -> Option<Seq<char>> {
        match self.field(key) {
            Some(value) => value.as_text(),
            None => None,
        }
    }

    /// The decimal text of the number under `key`, where that member is a
    /// number.
    pub open spec fn number_under(self, key: Seq<char>) -> Option<Seq<char>> {
        match self.field(key) {
            Some(value) => value.as_number(),
            None => None,
        }
    }

    /// The text or number under `key`, a number by its decimal text.
    pub open spec fn scalar_under(self, key: Seq<char>) -> Option<Seq<char>> {
        match self.field(key) {
            Some(value) => value.scalar_text(),
            None => None,
        }
    }
}

/// The view of a table, member by member.
pub proof fn lemma_table_view(members: Vec<Member>)
    ensures
        Node::Table(members)@ is Table,
        Node::Table(members)@->Table_0.len() == members@.len(),
        forall|j: int|
            0 <= j < members@.len() ==> (#[trigger] Node::Table(members)@->Table_0[j]) == (
                members@[j].key@,
                members@[j].value@,
            ),
{
}

/// The view of a list, item by item.
pub proof fn lemma_list_view(items: Vec<Node>)
    ensures
        Node::List(items)@ is List,
        Node::List(items)@->List_0.len() == items@.len(),
        forall|j: int| 0 <= j < items@.len() ==> (#[trigger] Node::List(items)@->List_0[j]) == items@[j]@,
{
}

/// What an optional reference to a node stands for.
pub open spec fn view_of(node: Option<&Node>) -> Option<Tree> {
    match node {
        Some(n) => Some(n@),
        None => None,
    }
}

/// What an optional string stands for.
pub open spec fn text_of(text: Option<String>) -> Option<Seq<char>> {
    match text {
        Some(t) => Some(t@),
        None => None,
    }
}

impl Node {
    /// The value under `key` where this is a table that has such a member; the
    /// first one where several members share the key.
    pub fn get(&self, key: &str) -> (found: Option<&Node>)
        ensures
            view_of(found) == self@.field(key@),
    {
        match self {
            Node::Table(members) => {
                proof {
                    lemma_table_view(*members);
                }
                let mut i: usize = 0;
                while i < members.len()
                    invariant
                        i <= members.len(),
                        self@ is Table,
                        self@->Table_0.len() == members.len(),
                        forall|j: int|
                            0 <= j < members.len() ==> (#[trigger] self@->Table_0[j]) == (
                                members@[j].key@,
                                members@[j].value@,
                            ),
                        self@.field(key@) == member_from(self@->Table_0, key@, i as int),
                    decreases members.len() - i,
                {
                    if same_text(members[i].key.as_str(), key) {
                        return Some(&members[i].value);
                    }
                    i += 1;
                }
                None
            },
            _ => None,
        }
    }

    /// The first item where this is a list that is not empty.
    pub fn first(&self) -> (found: Option<&Node>)
        ensures
            view_of(found) == self@.first(),
    {
        match self {
            Node::List(items) => {
                if items.len() > 0 {
                    Some(&items[0])
                } else {
                    None
                }
            },
            _ => None,
        }
    }

    /// The characters where this is a text.
    pub fn as_text(&self) -> (found: Option<String>)
        ensures
            text_of(found) == self@.as_text(),
    {
        match self {
            Node::Text(text) => Some(text.clone()),
            _ => None,
        }
    }

    /// The decimal text where this is a number.
    pub fn as_number(&self) -> (found: Option<String>)
        ensures
            text_of(found) == self@.as_number(),
    {
        match self {
            Node::Number(text) => Some(text.clone()),
            _ => None,
        }
    }

    /// A text as it stands, a number by its decimal text, nothing otherwise.
    pub fn scalar_text(&self) -> (found: Option<String>)
        ensures
            text_of(found) == self@.scalar_text(),
    {
        match self {
            Node::Text(text) => Some(text.clone()),
            Node::Number(text) => Some(text.clone()),
            _ => None,
        }
    }

    /// The text under `key`, where that member is a text.
    pub fn text_under(&self, key: &str) -> (found: Option<String>)
        ensures
            text_of(found) == self@.text_under(key@),
    {
        match self.get(key) {
            Some(value) => value.as_text(),
            None => None,
        }
    }

    /// The decimal text of the number under `key`, where that member is a
    /// number.
    pub fn number_under(&self, key: &str) -> (found: Option<String>)
        ensures
            text_of(found) == self@.number_under(key@),
    {
        match self.get(key) {
            Some(value) => value.as_number(),
            None => None,
        }
    }

    /// The text or number under `key`, a number by its decimal text.
    pub fn scalar_under(&self, key: &str) -> (found: Option<String>)
        ensures
            text_of(found) == self@.scalar_under(key@),
    {
        match self.get(key) {
            Some(value) => value.scalar_text(),
            None => None,
        }
    }
}

/// Whether two documents hold the same content.
#[verifier::loop_isolation(false)]
pub fn same_document(a: &Node, b: &Node) -> (same: bool)
    ensures
        same == (a@ == b@),
    decreases a,
{
    match (a, b) {
        (Node::Null, Node::Null) => true,
        (Node::Bool(x), Node::Bool(y)) => *x == *y,
        (Node::Number(x), Node::Number(y)) => same_text(x.as_str(), y.as_str()),
        (Node::Text(x), Node::Text(y)) => same_text(x.as_str(), y.as_str()),
        (Node::Moment(x), Node::Moment(y)) => same_text(x.as_str(), y.as_str()),
        (Node::List(x), Node::List(y)) => {
            proof {
                lemma_list_view(*x);
                lemma_list_view(*y);
            }
            if x.len() != y.len() {
                return false;
            }
            let mut at: usize = 0;
            while at < x.len()
                invariant
                    at <= x.len(),
                    x.len() == y.len(),
                    forall|j: int| 0 <= j < at ==> x@[j]@ == y@[j]@,
                decreases x.len() - at,
            {
                if !same_document(&x[at], &y[at]) {
                    assert(a@->List_0[at as int] != b@->List_0[at as int]);
                    return false;
                }
                at += 1;
            }
            assert(a@->List_0 =~= b@->List_0);
            true
        },
        (Node::Table(x), Node::Table(y)) => {
            proof {
                lemma_table_view(*x);
                lemma_table_view(*y);
            }
            if x.len() != y.len() {
                return false;
            }
            let mut at: usize = 0;
            while at < x.len()
                invariant
                    at <= x.len(),
                    x.len() == y.len(),
                    forall|j: int|
                        0 <= j < at ==> x@[j].key@ == y@[j].key@ && x@[j].value@ == y@[j].value@,
                decreases x.len() - at,
            {
                if !same_text(x[at].key.as_str(), y[at].key.as_str()) || !same_document(
                    &x[at].value,
                    &y[at].value,
                ) {
                    assert(a@->Table_0[at as int] != b@->Table_0[at as int]);
                    return false;
                }
                at += 1;
            }
            assert(a@->Table_0 =~= b@->Table_0);
            true
        },
        _ => false,
    }
}

} // verus!
