//! The file format of a module: a JSON object with the members `header` and
//! `mods`.
//!
//! `header` holds `module_name` and `module_author`, both strings, and
//! `module_version`, a number. `mods` holds one member for each mod, under
//! the mod's identifier: an object with the strings `mod_version`, `mod_tag`
//! and `mod_type`. Members that the format does not name are passed over.
//!
//! The version of a module is held by the decimal text of its number. A
//! version that was read from a file is in the form in which the number is
//! printed; a module that is given another text for the same number is read
//! back with the printed form.

use crate::codec::json_text;
use crate::codec::json_tree;
use crate::codec::parse_json;
use crate::codec::render_json;
use crate::document::lemma_table_view;
use crate::document::member_from;
use crate::document::same_document;
use crate::document::Member;
use crate::document::Node;
use crate::document::Tree;
use crate::registry::mods_view;
use crate::registry::Mod;
use crate::registry::ModView;
use crate::registry::Module;
use crate::registry::ModuleView;
use crate::sorted_map::map_of;
use crate::sorted_map::SortedMap;
use crate::tags::tag_label;
use crate::tags::tag_label_round_trip;
use crate::tags::tag_of_label;
use crate::tags::type_label;
use crate::tags::type_label_round_trip;
use crate::tags::type_of_label;
use crate::tags::DefaultTags;
use crate::tags::ModTypes;
use vstd::prelude::*;

verus! {

/// Why a module could not be read.
#[derive(Debug)]
pub enum LoadError {
    /// The text is not well-formed JSON.
    Json(serde_json::Error),
    /// The text is JSON, but not of the form of a module file.
    Shape,
}

/// Why a module could not be written.
#[derive(Debug)]
pub enum SaveError {
    /// The module does not go into JSON: the text of its version is no JSON
    /// number.
    Json(serde_json::Error),
    /// The text that was written does not read back as the module's
    /// document.
    ReadBack,
}

/// The kind of a failed writing.
#[derive(Clone, Copy, Debug, PartialEq, Eq, Structural)]
pub enum SaveFault {
    /// The module does not go into JSON.
    Json,
    /// The text that was written does not read back as the module's
    /// document.
    ReadBack,
}

impl SaveError {
    /// The kind of this failure.
    pub open spec fn fault(&self) -> SaveFault {
        match self {
            SaveError::Json(_) => SaveFault::Json,
            SaveError::ReadBack => SaveFault::ReadBack,
        }
    }

    /// The kind of this failure.
    pub fn kind(&self) -> (kind: SaveFault)
        ensures
            kind == self.fault(),
    {
        match self {
            SaveError::Json(_) => SaveFault::Json,
            SaveError::ReadBack => SaveFault::ReadBack,
        }
    }
}

/// The document that stands for one mod's entry.
pub open spec fn mod_tree(entry: ModView) -> Tree {
    Tree::Table(
        seq![
            ("mod_version"@, Tree::Text(entry.mod_version)),
            ("mod_tag"@, Tree::Text(tag_label(entry.mod_tag))),
            ("mod_type"@, Tree::Text(type_label(entry.mod_type))),
        ],
    )
}

/// The members that stand for the mods of a listing, in its order.
pub open spec fn mods_members(listing: Seq<(Seq<char>, Mod)>) -> Seq<(Seq<char>, Tree)> {
    Seq::new(listing.len(), |i: int| (listing[i].0, mod_tree(listing[i].1@)))
}

/// The document that stands for a module's header.
pub open spec fn header_tree(name: Seq<char>, version: Seq<char>, author: Seq<char>) -> Tree {
    Tree::Table(
        seq![
            ("module_name"@, Tree::Text(name)),
            ("module_version"@, Tree::Number(version)),
            ("module_author"@, Tree::Text(author)),
        ],
    )
}

/// The document that stands for a module.
pub open spec fn module_tree(module: Module) -> Tree {
    Tree::Table(
        seq![
            (
                "header"@,
                header_tree(module.module_name@, module.module_version@, module.module_author@),
            ),
            ("mods"@, Tree::Table(mods_members(module.mods.listing()))),
        ],
    )
}

/// The entry that a document stands for, if it has the form of one.
pub open spec fn mod_of_tree(tree: Tree) -> Option<ModView> {
    match (tree.text_under("mod_version"@), tree.text_under("mod_tag"@), tree.text_under("mod_type"@)) {
        (Some(version), Some(tag), Some(kind)) => match (tag_of_label(tag), type_of_label(kind)) {
            (Some(mod_tag), Some(mod_type)) => Some(ModView { mod_version: version, mod_tag, mod_type }),
            _ => None,
        },
        _ => None,
    }
}

/// The mods that the members of `mods` stand for, if each has the form of an
/// entry. Of two members with one identifier the later one counts.
pub open spec fn mods_of_members(members: Seq<(Seq<char>, Tree)>) -> Option<Map<Seq<char>, ModView>>
    decreases members.len(),
{
    if members.len() == 0 {
        Some(Map::empty())
    } else {
        match (mods_of_members(members.drop_last()), mod_of_tree(members.last().1)) {
            (Some(earlier), Some(entry)) => Some(earlier.insert(members.last().0, entry)),
            _ => None,
        }
    }
}

/// The members of the table under `key`.
pub open spec fn table_under(tree: Tree, key: Seq<char>) -> Option<Seq<(Seq<char>, Tree)>> {
    match tree.field(key) {
        Some(Tree::Table(members)) => Some(members),
        _ => None,
    }
}

/// The module that a document stands for, if it has the form of one.
pub open spec fn module_of_tree(tree: Tree) -> Option<ModuleView> {
    match (tree.field("header"@), table_under(tree, "mods"@)) {
        (Some(header), Some(members)) => match (
            header.text_under("module_name"@),
            header.number_under("module_version"@),
            header.text_under("module_author"@),
            mods_of_members(members),
        ) {
            (Some(module_name), Some(module_version), Some(module_author), Some(mods)) => Some(
                ModuleView { module_name, module_version, module_author, mods },
            ),
            _ => None,
        },
        _ => None,
    }
}

/// What an optional module stands for.
pub open spec fn module_view(module: Option<Module>) -> Option<ModuleView> {
    match module {
        Some(m) => Some(m@),
        None => None,
    }
}

/// What an optional entry stands for.
pub open spec fn mod_view(entry: Option<Mod>) -> Option<ModView> {
    match entry {
        Some(e) => Some(e@),
        None => None,
    }
}

/// Writes one entry as a document.
pub fn mod_to_document(entry: &Mod) -> (doc: Node)
    ensures
        doc@ == mod_tree(entry@),
{
    let mut members: Vec<Member> = Vec::new();
    members.push(Member { key: "mod_version".to_owned(), value: Node::Text(entry.mod_version.clone()) });
    members.push(Member { key: "mod_tag".to_owned(), value: Node::Text(entry.mod_tag.label()) });
    members.push(Member { key: "mod_type".to_owned(), value: Node::Text(entry.mod_type.label()) });
    proof {
        lemma_table_view(members);
        assert(Node::Table(members)@->Table_0 =~= mod_tree(entry@)->Table_0);
    }
    Node::Table(members)
}

/// Reads one entry from a document.
pub fn mod_from_document(doc: &Node) -> (entry: Option<Mod>)
    ensures
        mod_view(entry) == mod_of_tree(doc@),
{
    let mod_version = match doc.text_under("mod_version") {
        Some(text) => text,
        None => { return None; },
    };
    let tag = match doc.text_under("mod_tag") {
        Some(text) => text,
        None => { return None; },
    };
    let kind = match doc.text_under("mod_type") {
        Some(text) => text,
        None => { return None; },
    };
    let mod_tag = match DefaultTags::from_label(tag.as_str()) {
        Some(mod_tag) => mod_tag,
        None => { return None; },
    };
    let mod_type = match ModTypes::from_label(kind.as_str()) {
        Some(mod_type) => mod_type,
        None => { return None; },
    };
    Some(Mod { mod_version, mod_tag, mod_type })
}

/// Writes a module as a document.
pub fn module_to_document(module: &Module) -> (doc: Node)
    ensures
        doc@ == module_tree(*module),
{
    let mut header: Vec<Member> = Vec::new();
    header.push(Member { key: "module_name".to_owned(), value: Node::Text(module.module_name.clone()) });
    header.push(
        Member { key: "module_version".to_owned(), value: Node::Number(module.module_version.clone()) },
    );
    header.push(
        Member { key: "module_author".to_owned(), value: Node::Text(module.module_author.clone()) },
    );
    proof {
        lemma_table_view(header);
        assert(Node::Table(header)@->Table_0 =~= header_tree(
            module.module_name@,
            module.module_version@,
            module.module_author@,
        )->Table_0);
    }
    let ghost listing = module.mods.listing();
    let mut mods: Vec<Member> = Vec::new();
    let mut at: usize = 0;
    while at < module.mods.len()
        invariant
            at <= module.mods.listing().len(),
            listing == module.mods.listing(),
            mods@.len() == at,
            forall|i: int|
                0 <= i < at ==> (#[trigger] mods@[i]).key@ == listing[i].0 && mods@[i].value@
                    == mod_tree(listing[i].1@),
        decreases module.mods.listing().len() - at,
    {
        let key = module.mods.key_at(at).clone();
        let value = mod_to_document(module.mods.value_at(at));
        mods.push(Member { key, value });
        at += 1;
    }
    proof {
        lemma_table_view(mods);
        assert(Node::Table(mods)@->Table_0 =~= mods_members(listing));
    }
    let mut top: Vec<Member> = Vec::new();
    top.push(Member { key: "header".to_owned(), value: Node::Table(header) });
    top.push(Member { key: "mods".to_owned(), value: Node::Table(mods) });
    proof {
        lemma_table_view(top);
        assert(Node::Table(top)@->Table_0 =~= module_tree(*module)->Table_0);
    }
    Node::Table(top)
}

/// Members that do not all have the form of an entry stay so when more
/// members follow.
pub proof fn lemma_mods_stay_malformed(members: Seq<(Seq<char>, Tree)>, at: int)
    requires
        0 <= at <= members.len(),
        mods_of_members(members.take(at)) is None,
    ensures
        mods_of_members(members) is None,
    decreases members.len() - at,
{
    if at < members.len() {
        assert(members.take(at + 1).drop_last() =~= members.take(at));
        lemma_mods_stay_malformed(members, at + 1);
    } else {
        assert(members.take(at) =~= members);
    }
}

/// Reads a module from a document.
pub fn module_from_document(doc: &Node) -> (module: Option<Module>)
    ensures
        module_view(module) == module_of_tree(doc@),
        module matches Some(m) ==> m.wf(),
{
    let header = match doc.get("header") {
        Some(header) => header,
        None => { return None; },
    };
    let members = match doc.get("mods") {
        Some(Node::Table(members)) => members,
        _ => { return None; },
    };
    let module_name = match header.text_under("module_name") {
        Some(text) => text,
        None => { return None; },
    };
    let module_version = match header.number_under("module_version") {
        Some(text) => text,
        None => { return None; },
    };
    let module_author = match header.text_under("module_author") {
        Some(text) => text,
        None => { return None; },
    };
    let ghost all = table_under(doc@, "mods"@)->0;
    proof {
        lemma_table_view(*members);
    }
    let mut mods: SortedMap<Mod> = SortedMap::new();
    let mut at: usize = 0;
    assert(mods_view(mods@) =~= Map::<Seq<char>, ModView>::empty());
    assert(all.take(0) =~= Seq::<(Seq<char>, Tree)>::empty());
    while at < members.len()
        invariant
            at <= members.len(),
            mods.wf(),
            table_under(doc@, "mods"@) == Some(all),
            all.len() == members.len(),
            forall|j: int|
                0 <= j < members.len() ==> (#[trigger] all[j]) == (
                    members@[j].key@,
                    members@[j].value@,
                ),
            mods_of_members(all.take(at as int)) == Some(mods_view(mods@)),
        decreases members.len() - at,
    {
        proof {
            assert(all.take(at + 1).drop_last() =~= all.take(at as int));
            assert(all.take(at + 1).last() == all[at as int]);
        }
        match mod_from_document(&members[at].value) {
            Some(entry) => {
                let ghost earlier = mods@;
                mods.insert(members[at].key.clone(), entry);
                assert(mods_view(mods@) =~= mods_view(earlier).insert(members@[at as int].key@, entry@));
            },
            None => {
                proof {
                    lemma_mods_stay_malformed(all, at + 1);
                }
                return None;
            },
        }
        at += 1;
    }
    assert(all.take(at as int) =~= all);
    Some(Module { module_name, module_version, module_author, mods })
}

/// An entry is read back from the document that stands for it.
pub proof fn lemma_mod_round_trip(entry: ModView)
    ensures
        mod_of_tree(mod_tree(entry)) == Some(entry),
{
    reveal_with_fuel(member_from, 4);
    reveal_strlit("mod_version");
    reveal_strlit("mod_tag");
    reveal_strlit("mod_type");
    assert("mod_version"@.len() == 11 && "mod_tag"@.len() == 7 && "mod_type"@.len() == 8);
    tag_label_round_trip(entry.mod_tag);
    type_label_round_trip(entry.mod_type);
}

/// The mods of a listing are read back from the members that stand for them.
pub proof fn lemma_mods_round_trip(listing: Seq<(Seq<char>, Mod)>)
    ensures
        mods_of_members(mods_members(listing)) == Some(mods_view(map_of(listing))),
    decreases listing.len(),
{
    if listing.len() == 0 {
        assert(mods_view(map_of(listing)) =~= Map::<Seq<char>, ModView>::empty());
    } else {
        let init = listing.drop_last();
        let last = listing.last();
        lemma_mods_round_trip(init);
        lemma_mod_round_trip(last.1@);
        assert(mods_members(listing).drop_last() =~= mods_members(init));
        assert(mods_members(listing).last() == (last.0, mod_tree(last.1@)));
        assert(mods_view(map_of(listing)) =~= mods_view(map_of(init)).insert(last.0, last.1@));
    }
}

/// A module is read back from the document that stands for it: header and
/// mods are those of the module.
pub proof fn lemma_module_round_trip(module: Module)
    ensures
        module_of_tree(module_tree(module)) == Some(module@),
{
    reveal_with_fuel(member_from, 4);
    reveal_strlit("header");
    reveal_strlit("mods");
    reveal_strlit("module_name");
    reveal_strlit("module_version");
    reveal_strlit("module_author");
    assert("header"@.len() == 6 && "mods"@.len() == 4);
    assert("module_name"@.len() == 11 && "module_version"@.len() == 14 && "module_author"@.len()
        == 13);
    lemma_mods_round_trip(module.mods.listing());
}

/// The kind of a failed reading.
#[derive(Clone, Copy, Debug, PartialEq, Eq, Structural)]
pub enum LoadFault {
    /// The text is not well-formed JSON.
    Json,
    /// The text is JSON, but not of the form of a module file.
    Shape,
}

impl LoadError {
    /// The kind of this failure.
    pub open spec fn fault(&self) -> LoadFault {
        match self {
            LoadError::Json(_) => LoadFault::Json,
            LoadError::Shape => LoadFault::Shape,
        }
    }

    /// The kind of this failure.
    pub fn kind(&self) -> (kind: LoadFault)
        ensures
            kind == self.fault(),
    {
        match self {
            LoadError::Json(_) => LoadFault::Json,
            LoadError::Shape => LoadFault::Shape,
        }
    }
}

/// The module that the text of a file stands for, or the kind of what is
/// wrong with it.
pub open spec fn module_of_text(text: Seq<char>) -> Result<ModuleView, LoadFault> {
    match json_tree(text) {
        None => Err(LoadFault::Json),
        Some(tree) => match module_of_tree(tree) {
            None => Err(LoadFault::Shape),
            Some(content) => Ok(content),
        },
    }
}

/// What the outcome of a reading stands for.
pub open spec fn load_view(loaded: Result<Module, LoadError>) -> Result<ModuleView, LoadFault> {
    match loaded {
        Ok(module) => Ok(module@),
        Err(e) => Err(e.fault()),
    }
}

/// A module is read back from its file, header and mods as they were, where
/// the text that was written for its document is read as that document
/// again.
pub proof fn lemma_file_round_trip(module: Module, text: Seq<char>)
    requires
        json_text(module_tree(module)) == Some(text),
        json_tree(text) == Some(module_tree(module)),
    ensures
        module_of_text(text) == Ok::<ModuleView, LoadFault>(module@),
{
    lemma_module_round_trip(module);
}

/// The text of a module's file, where that text reads back as the module's
/// document, or the kind of what stands against it.
pub open spec fn checked_text(module: Module) -> Result<Seq<char>, SaveFault> {
    match json_text(module_tree(module)) {
        None => Err(SaveFault::Json),
        Some(text) => if json_tree(text) == Some(module_tree(module)) {
            Ok(text)
        } else {
            Err(SaveFault::ReadBack)
        },
    }
}

/// What the outcome of a writing stands for.
pub open spec fn save_view(written: Result<String, SaveError>) -> Result<Seq<char>, SaveFault> {
    match written {
        Ok(text) => Ok(text@),
        Err(e) => Err(e.fault()),
    }
}

/// A text that was written and checked reads back as the module that it
/// was written for, header and mods as they were.
pub proof fn lemma_checked_text_reads_back(module: Module)
    requires
        checked_text(module) is Ok,
    ensures
        module_of_text(checked_text(module)->Ok_0) == Ok::<ModuleView, LoadFault>(module@),
{
    lemma_file_round_trip(module, checked_text(module)->Ok_0);
}

impl Module {
    /// Writes the module as the text of its file, reads that text back and
    /// hands it out only where the reading gives the module's document
    /// again. A text that this hands out is read by `from_json` as the
    /// module that it was written for.
    pub fn to_json_checked(&self) -> (written: Result<String, SaveError>)
        ensures
            save_view(written) == checked_text(*self),
            written matches Ok(text) ==> module_of_text(text@) == Ok::<ModuleView, LoadFault>(
                self@,
            ),
    {
        let doc = module_to_document(self);
        let text = match render_json(&doc) {
            Ok(text) => text,
            Err(e) => { return Err(SaveError::Json(e)); },
        };
        let same = match parse_json(text.as_str()) {
            Ok(back) => same_document(&doc, &back),
            Err(_) => false,
        };
        if same {
            proof {
                lemma_checked_text_reads_back(*self);
            }
            Ok(text)
        } else {
            Err(SaveError::ReadBack)
        }
    }

    /// Reads a module from the text of its file.
    pub fn from_json(text: &str) -> (loaded: Result<Module, LoadError>)
        ensures
            load_view(loaded) == module_of_text(text@),
            loaded matches Ok(module) ==> module.wf(),
    {
        let doc = match parse_json(text) {
            Ok(doc) => doc,
            Err(e) => { return Err(LoadError::Json(e)); },
        };
        match module_from_document(&doc) {
            Some(module) => Ok(module),
            None => Err(LoadError::Shape),
        }
    }

    /// Writes the module as the text of its file, without reading it back.
    /// This fails where the text of the module's version is no JSON number.
    pub fn to_json(&self) -> (written: Result<String, SaveError>)
        ensures
            written is Ok <==> json_text(module_tree(*self)) is Some,
            written matches Ok(text) ==> json_text(module_tree(*self)) == Some(text@),
            written matches Err(e) ==> e.fault() == SaveFault::Json,
    {
        let doc = module_to_document(self);
        match render_json(&doc) {
            Ok(text) => Ok(text),
            Err(e) => Err(SaveError::Json(e)),
        }
    }
}

} // verus!
