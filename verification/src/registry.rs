//! The module: a curated list of mods, each with the version, side and loader
//! family that is expected of it.

use crate::sorted_map::SortedMap;
use crate::tags::DefaultTags;
use crate::tags::ModTypes;
use vstd::prelude::*;

verus! {

/// What a module expects of one mod.
#[derive(Debug, PartialEq, Eq)]
pub struct Mod {
    pub mod_version: String,
    pub mod_tag: DefaultTags,
    pub mod_type: ModTypes,
}

/// The mathematical content of a `Mod`.
pub struct ModView {
    pub mod_version: Seq<char>,
    pub mod_tag: DefaultTags,
    pub mod_type: ModTypes,
}

impl View for Mod {
    type V = ModView;

    open spec fn view(&self) -> ModView {
        ModView { mod_version: self.mod_version@, mod_tag: self.mod_tag, mod_type: self.mod_type }
    }
}

impl Clone for Mod {
    fn clone(&self) -> (copy: Mod)
        ensures
            copy@ == self@,
    {
        Mod { mod_version: self.mod_version.clone(), mod_tag: self.mod_tag, mod_type: self.mod_type }
    }
}

/// A module: its header and its mods by identifier.
#[derive(Debug)]
pub struct Module {
    pub module_name: String,
    /// The version number of the module, by its decimal text.
    pub module_version: String,
    pub module_author: String,
    pub mods: SortedMap<Mod>,
}

/// The mathematical content of a `Module`.
pub struct ModuleView {
    pub module_name: Seq<char>,
    pub module_version: Seq<char>,
    pub module_author: Seq<char>,
    pub mods: Map<Seq<char>, ModView>,
}

/// The mods of a module as a map from identifier to content.
pub open spec fn mods_view(mods: Map<Seq<char>, Mod>) -> Map<Seq<char>, ModView> {
    mods.map_values(|entry: Mod| entry@)
}

/// The version, tag and type of `entry` where `version`, `tag` and `kind` each
/// replace what they are given for.
pub open spec fn edited(
    entry: ModView,
    version: Option<Seq<char>>,
    tag: Option<DefaultTags>,
    kind: Option<ModTypes>,
) -> ModView {
    ModView {
        mod_version: match version {
            Some(v) => v,
            None => entry.mod_version,
        },
        mod_tag: match tag {
            Some(t) => t,
            None => entry.mod_tag,
        },
        mod_type: match kind {
            Some(k) => k,
            None => entry.mod_type,
        },
    }
}

/// What an optional string slice stands for.
pub open spec fn slice_view(text: Option<&str>) -> Option<Seq<char>> {
    match text {
        Some(t) => Some(t@),
        None => None,
    }
}

impl View for Module {
    type V = ModuleView;

    open spec fn view(&self) -> ModuleView {
        ModuleView {
            module_name: self.module_name@,
            module_version: self.module_version@,
            module_author: self.module_author@,
            mods: mods_view(self.mods@),
        }
    }
}

impl Module {
    /// The module is valid: its mods are held in the order of their
    /// identifiers.
    pub open spec fn wf(&self) -> bool {
        self.mods.wf()
    }

    /// A module with the given header and no mods.
    pub fn new(name: &str, version: &str, author: &str) -> (module: Module)
        ensures
            module.wf(),
            module@ == (ModuleView {
                module_name: name@,
                module_version: version@,
                module_author: author@,
                mods: Map::empty(),
            }),
    {
        let module = Module {
            module_name: name.to_owned(),
            module_version: version.to_owned(),
            module_author: author.to_owned(),
            mods: SortedMap::new(),
        };
        assert(module@.mods =~= Map::empty());
        module
    }

    /// The tag of the mod `mod_id`, if the module lists it.
    pub fn get_mod_type(&self, mod_id: &str) -> (tag: Option<&DefaultTags>)
        requires
            self.wf(),
        ensures
            tag is Some <==> self@.mods.contains_key(mod_id@),
            tag matches Some(t) ==> *t == self@.mods[mod_id@].mod_tag,
    {
        match self.mods.get(mod_id) {
            Some(entry) => Some(&entry.mod_tag),
            None => None,
        }
    }

    /// The mods that carry `tag`, in the order of their identifiers.
    pub fn get_mods_by_type(&self, tag: &DefaultTags) -> (found: Vec<&Mod>)
        requires
            self.wf(),
        ensures
            found@.map_values(|entry: &Mod| *entry) == self.mods.values().filter(
                |entry: Mod| entry.mod_tag == *tag,
            ),
    {
        let ghost wanted = |entry: Mod| entry.mod_tag == *tag;
        let ghost all = self.mods.values();
        let mut found: Vec<&Mod> = Vec::new();
        let mut at: usize = 0;
        assert(all.take(0).filter(wanted) =~= Seq::<Mod>::empty()) by {
            reveal(Seq::filter);
        }
        while at < self.mods.len()
            invariant
                at <= self.mods.listing().len(),
                all == self.mods.values(),
                wanted == |entry: Mod| entry.mod_tag == *tag,
                found@.map_values(|entry: &Mod| *entry) == all.take(at as int).filter(wanted),
            decreases self.mods.listing().len() - at,
        {
            let entry = self.mods.value_at(at);
            proof {
                reveal(Seq::filter);
                assert(all.take(at + 1).drop_last() =~= all.take(at as int));
                assert(all.take(at + 1).last() == *entry);
            }
            if entry.mod_tag == *tag {
                let ghost before = found@;
                found.push(entry);
                assert(found@.map_values(|entry: &Mod| *entry) =~= before.map_values(
                    |entry: &Mod| *entry,
                ).push(*entry));
            }
            at += 1;
        }
        assert(all.take(at as int) =~= all);
        found
    }

    /// Lists `mod_id` with the given version, tag and type. An entry that the
    /// module already has under that identifier is replaced.
    pub fn add_mod(&mut self, mod_id: &str, mod_version: &str, mod_tag: DefaultTags, mod_type: ModTypes)
        requires
            old(self).wf(),
        ensures
            final(self).wf(),
            final(self)@ == (ModuleView {
                mods: old(self)@.mods.insert(
                    mod_id@,
                    ModView { mod_version: mod_version@, mod_tag, mod_type },
                ),
                ..old(self)@
            }),
    {
        let entry = Mod { mod_version: mod_version.to_owned(), mod_tag, mod_type };
        self.mods.insert(mod_id.to_owned(), entry);
        assert(final(self)@.mods =~= old(self)@.mods.insert(mod_id@, entry@));
    }

    /// Takes `mod_id` off the list. Says whether it was listed.
    pub fn remove_mod(&mut self, mod_id: &str) -> (removed: bool)
        requires
            old(self).wf(),
        ensures
            final(self).wf(),
            removed == old(self)@.mods.contains_key(mod_id@),
            final(self)@ == (ModuleView { mods: old(self)@.mods.remove(mod_id@), ..old(self)@ }),
    {
        let previous = self.mods.remove(mod_id);
        assert(final(self)@.mods =~= old(self)@.mods.remove(mod_id@));
        previous.is_some()
    }

    /// Changes the entry of `mod_id`: each of `new_version`, `new_tag` and
    /// `new_type` that is given replaces the entry's value, the others stay.
    /// Says whether `mod_id` was listed; a module that does not list it is
    /// left as it is.
    pub fn edit_mod(
        &mut self,
        mod_id: &str,
        new_version: Option<&str>,
        new_tag: Option<DefaultTags>,
        new_type: Option<ModTypes>,
    ) -> (updated: bool)
        requires
            old(self).wf(),
        ensures
            final(self).wf(),
            updated == old(self)@.mods.contains_key(mod_id@),
            updated ==> final(self)@ == (ModuleView {
                mods: old(self)@.mods.insert(
                    mod_id@,
                    edited(old(self)@.mods[mod_id@], slice_view(new_version), new_tag, new_type),
                ),
                ..old(self)@
            }),
            !updated ==> final(self)@ == old(self)@,
    {
        let entry = match self.mods.get(mod_id) {
            Some(current) => Mod {
                mod_version: match new_version {
                    Some(v) => v.to_owned(),
                    None => current.mod_version.clone(),
                },
                mod_tag: match new_tag {
                    Some(t) => t,
                    None => current.mod_tag,
                },
                mod_type: match new_type {
                    Some(k) => k,
                    None => current.mod_type,
                },
            },
            None => { return false; },
        };
        self.mods.insert(mod_id.to_owned(), entry);
        assert(final(self)@.mods =~= old(self)@.mods.insert(mod_id@, entry@));
        true
    }
}

} // verus!
