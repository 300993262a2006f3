//! Finding a mod's identity in the manifest that its archive carries.
//!
//! An archive is walked in the order in which its entries are stored. The
//! first entry whose name ends like a known manifest decides: that entry is
//! parsed and nothing after it is looked at.

use crate::archive::archive_source;
use crate::archive::entry_count;
use crate::archive::entry_name;
use crate::archive::entry_text;
use crate::archive::open_archive;
use crate::archive::zip_entry_count;
use crate::archive::zip_entry_name;
use crate::archive::zip_entry_text;
use crate::archive::zip_readable;
use crate::codec::json_tree;
use crate::codec::parse_json;
use crate::codec::parse_toml;
use crate::codec::toml_tree;
use crate::document::text_of;
use crate::document::Node;
use crate::document::Tree;
use crate::tags::ModTypes;
use crate::text::contains;
use crate::text::contains_text;
use crate::text::ends_with;
use crate::text::is_suffix;
use crate::text::lowercase_of;
use crate::text::to_lowercase;
use vstd::prelude::*;
use zip::result::ZipError;

verus! {

/// The manifest formats that are recognised.
#[derive(Clone, Copy, Debug, PartialEq, Eq, Structural)]
pub enum Dialect {
    /// `mods.toml`, a TOML file of Forge and NeoForge.
    ModsToml,
    /// `fabric.mod.json`, a JSON object of Fabric.
    FabricModJson,
    /// `mcmod.info`, a JSON array of older Forge versions.
    McmodInfo,
}

/// What a manifest tells about a mod.
#[derive(Debug, PartialEq, Eq)]
pub struct Detection {
    pub mod_id: String,
    pub mod_type: ModTypes,
    pub version: Option<String>,
}

/// The mathematical content of a `Detection`.
pub struct DetectionView {
    pub mod_id: Seq<char>,
    pub mod_type: ModTypes,
    pub version: Option<Seq<char>>,
}

impl View for Detection {
    type V = DetectionView;

    open spec fn view(&self) -> DetectionView {
        DetectionView { mod_id: self.mod_id@, mod_type: self.mod_type, version: text_of(self.version) }
    }
}

impl Clone for Detection {
    fn clone(&self) -> (copy: Detection)
        ensures
            copy@ == self@,
    {
        Detection {
            mod_id: self.mod_id.clone(),
            mod_type: self.mod_type,
            version: match &self.version {
                Some(v) => Some(v.clone()),
                None => None,
            },
        }
    }
}

/// Why no answer could be given for an archive.
#[derive(Clone, Copy, Debug, PartialEq, Eq, Structural)]
pub enum Fault {
    /// The container, or an entry that had to be read, is damaged or not
    /// supported.
    Archive,
    /// A JSON manifest is not well-formed JSON.
    Json,
    /// A TOML manifest is not well-formed TOML.
    Toml,
}

/// A failed inspection, with the error of the crate that reported it.
#[derive(Debug)]
pub enum InspectError {
    Archive(ZipError),
    Json(serde_json::Error),
    Toml(toml::de::Error),
}

impl InspectError {
    /// The kind of this failure.
    pub open spec fn fault(&self) -> Fault {
        match self {
            InspectError::Archive(_) => Fault::Archive,
            InspectError::Json(_) => Fault::Json,
            InspectError::Toml(_) => Fault::Toml,
        }
    }

    /// The kind of this failure.
    pub fn kind(&self) -> (kind: Fault)
        ensures
            kind == self.fault(),
    {
        match self {
            InspectError::Archive(_) => Fault::Archive,
            InspectError::Json(_) => Fault::Json,
            InspectError::Toml(_) => Fault::Toml,
        }
    }

    /// Whether a manifest was found and could not be parsed.
    pub fn is_parse_error(&self) -> (parse: bool)
        ensures
            parse == (self.fault() != Fault::Archive),
    {
        match self {
            InspectError::Archive(_) => false,
            _ => true,
        }
    }
}

/// What an inspection's result stands for.
pub open spec fn outcome_view(outcome: Result<Option<Detection>, InspectError>) -> Result<
    Option<DetectionView>,
    Fault,
> {
    match outcome {
        Ok(Some(found)) => Ok(Some(found@)),
        Ok(None) => Ok(None),
        Err(e) => Err(e.fault()),
    }
}

/// What an optional detection stands for.
pub open spec fn detection_view(found: Option<Detection>) -> Option<DetectionView> {
    match found {
        Some(d) => Some(d@),
        None => None,
    }
}

/// The manifest format that an entry's name selects, by the end of the name.
pub open spec fn dialect_of(name: Seq<char>) -> Option<Dialect> {
    if is_suffix(name, "mods.toml"@) {
        Some(Dialect::ModsToml)
    } else if is_suffix(name, "fabric.mod.json"@) {
        Some(Dialect::FabricModJson)
    } else if is_suffix(name, "mcmod.info"@) {
        Some(Dialect::McmodInfo)
    } else {
        None
    }
}

/// The manifest format that an entry's name selects, if any.
pub fn dialect_of_name(name: &str) -> (dialect: Option<Dialect>)
    ensures
        dialect == dialect_of(name@),
{
    if ends_with(name, "mods.toml") {
        Some(Dialect::ModsToml)
    } else if ends_with(name, "fabric.mod.json") {
        Some(Dialect::FabricModJson)
    } else if ends_with(name, "mcmod.info") {
        Some(Dialect::McmodInfo)
    } else {
        None
    }
}

/// The loader family of a `mods.toml` whose lowercase text is `lower`:
/// NeoForge where the text names it, Forge otherwise.
pub open spec fn forge_family_of(lower: Seq<char>) -> ModTypes {
    if contains_text(lower, "neoforge"@) || contains_text(lower, "neo-forge"@) {
        ModTypes::NeoForge
    } else {
        ModTypes::Forge
    }
}

/// The loader family of a `mods.toml`, from its text in lowercase.
pub fn forge_family(lower: &str) -> (family: ModTypes)
    ensures
        family == forge_family_of(lower@),
{
    if contains(lower, "neoforge") || contains(lower, "neo-forge") {
        ModTypes::NeoForge
    } else {
        ModTypes::Forge
    }
}

/// The version of a `mods.toml` entry: the member `version`, and `modVersion`
/// only where there is no member `version`.
pub open spec fn toml_version(entry: Tree) -> Option<Seq<char>> {
    if entry.field("version"@) is Some {
        entry.scalar_under("version"@)
    } else {
        entry.scalar_under("modVersion"@)
    }
}

/// The identity that an entry of a manifest gives: its identifier under
/// `id_key`, with the given family and version. Without a textual identifier
/// there is no identity.
pub open spec fn entry_identity(
    entry: Option<Tree>,
    id_key: Seq<char>,
    family: ModTypes,
    version: Option<Seq<char>>,
) -> Option<DetectionView> {
    match entry {
        Some(e) => match e.text_under(id_key) {
            Some(id) => Some(DetectionView { mod_id: id, mod_type: family, version }),
            None => None,
        },
        None => None,
    }
}

/// The first element of the list under `mods`.
pub open spec fn toml_entry(doc: Tree) -> Option<Tree> {
    match doc.field("mods"@) {
        Some(mods) => mods.first(),
        None => None,
    }
}

/// What a parsed `mods.toml` tells: the first element of `mods` gives the
/// identifier under `modId` and the version.
pub open spec fn toml_identity_of(doc: Tree, family: ModTypes) -> Option<DetectionView> {
    match toml_entry(doc) {
        Some(entry) => entry_identity(Some(entry), "modId"@, family, toml_version(entry)),
        None => None,
    }
}

/// What a parsed `fabric.mod.json` tells: the top level gives the identifier
/// under `id` and the version under `version`; the family is Fabric.
pub open spec fn fabric_identity_of(doc: Tree) -> Option<DetectionView> {
    entry_identity(Some(doc), "id"@, ModTypes::Fabric, doc.scalar_under("version"@))
}

/// What a parsed `mcmod.info` tells: the first element of the top-level list
/// gives the identifier under `modid` and the version under `version`; the
/// family is Forge.
pub open spec fn mcmod_identity_of(doc: Tree) -> Option<DetectionView> {
    match doc.first() {
        Some(entry) => entry_identity(
            Some(entry),
            "modid"@,
            ModTypes::Forge,
            entry.scalar_under("version"@),
        ),
        None => None,
    }
}

/// What the text of a manifest tells, or the fault where it does not parse.
pub open spec fn manifest_outcome(dialect: Dialect, text: Seq<char>) -> Result<
    Option<DetectionView>,
    Fault,
> {
    match dialect {
        Dialect::ModsToml => match toml_tree(text) {
            Some(doc) => Ok(toml_identity_of(doc, forge_family_of(lowercase_of(text)))),
            None => Err(Fault::Toml),
        },
        Dialect::FabricModJson => match json_tree(text) {
            Some(doc) => Ok(fabric_identity_of(doc)),
            None => Err(Fault::Json),
        },
        Dialect::McmodInfo => match json_tree(text) {
            Some(doc) => Ok(mcmod_identity_of(doc)),
            None => Err(Fault::Json),
        },
    }
}

/// The manifest of an archive as it was found: its format and its text.
#[derive(Debug, PartialEq, Eq)]
pub struct Manifest {
    pub dialect: Dialect,
    pub text: String,
}

/// The manifest among the entries of `bytes` from position `from` on: the
/// first entry with a manifest's name, by its format and text. An entry that
/// cannot be opened on the way, and a manifest that cannot be read, is a
/// fault.
pub open spec fn manifest_from(bytes: Seq<u8>, from: int) -> Result<Option<(Dialect, Seq<char>)>, Fault>
    decreases zip_entry_count(bytes) - from,
{
    if from < 0 || from >= zip_entry_count(bytes) {
        Ok(None)
    } else {
        match zip_entry_name(bytes, from) {
            None => Err(Fault::Archive),
            Some(name) => match dialect_of(name) {
                None => manifest_from(bytes, from + 1),
                Some(dialect) => match zip_entry_text(bytes, from) {
                    None => Err(Fault::Archive),
                    Some(text) => Ok(Some((dialect, text))),
                },
            },
        }
    }
}

/// The manifest of an archive, if it holds one.
pub open spec fn manifest_of(bytes: Seq<u8>) -> Result<Option<(Dialect, Seq<char>)>, Fault> {
    if zip_readable(bytes) {
        manifest_from(bytes, 0)
    } else {
        Err(Fault::Archive)
    }
}

/// What an archive tells about the mod it holds: what its manifest tells.
pub open spec fn archive_outcome(bytes: Seq<u8>) -> Result<Option<DetectionView>, Fault> {
    match manifest_of(bytes) {
        Ok(Some((dialect, text))) => manifest_outcome(dialect, text),
        Ok(None) => Ok(None),
        Err(fault) => Err(fault),
    }
}

/// What the outcome of a search for the manifest stands for.
pub open spec fn manifest_view(found: Result<Option<Manifest>, InspectError>) -> Result<
    Option<(Dialect, Seq<char>)>,
    Fault,
> {
    match found {
        Ok(Some(manifest)) => Ok(Some((manifest.dialect, manifest.text@))),
        Ok(None) => Ok(None),
        Err(e) => Err(e.fault()),
    }
}

/// The identity that `entry` gives under `id_key`.
fn identity_under(entry: &Node, id_key: &str, family: ModTypes, version: Option<String>) -> (found:
    Option<Detection>)
    ensures
        detection_view(found) == entry_identity(Some(entry@), id_key@, family, text_of(version)),
{
    match entry.text_under(id_key) {
        Some(mod_id) => Some(Detection { mod_id, mod_type: family, version }),
        None => None,
    }
}

/// The first manifest wins: where the entries before position `at` can all be
/// opened and none of them is named like a manifest, and the entry at `at`
/// is, the archive tells what that entry's text tells, whatever follows it.
pub proof fn lemma_first_manifest_wins(bytes: Seq<u8>, at: int, dialect: Dialect, text: Seq<char>)
    requires
        zip_readable(bytes),
        0 <= at < zip_entry_count(bytes),
        forall|j: int|
            0 <= j < at ==> (#[trigger] zip_entry_name(bytes, j)) is Some && dialect_of(
                zip_entry_name(bytes, j)->0,
            ) is None,
        zip_entry_name(bytes, at) is Some,
        dialect_of(zip_entry_name(bytes, at)->0) == Some(dialect),
        zip_entry_text(bytes, at) == Some(text),
    ensures
        manifest_of(bytes) == Ok::<Option<(Dialect, Seq<char>)>, Fault>(Some((dialect, text))),
        archive_outcome(bytes) == manifest_outcome(dialect, text),
{
    lemma_entries_skipped(bytes, 0, at);
}

/// An archive in which every entry can be opened and none is named like a
/// manifest has no identity, and that is no error.
pub proof fn lemma_no_manifest_no_identity(bytes: Seq<u8>)
    requires
        zip_readable(bytes),
        forall|j: int|
            0 <= j < zip_entry_count(bytes) ==> (#[trigger] zip_entry_name(bytes, j)) is Some
                && dialect_of(zip_entry_name(bytes, j)->0) is None,
    ensures
        manifest_of(bytes) == Ok::<Option<(Dialect, Seq<char>)>, Fault>(None),
        archive_outcome(bytes) == Ok::<Option<DetectionView>, Fault>(None),
{
    lemma_entries_skipped(bytes, 0, zip_entry_count(bytes) as int);
}

/// Entries that can be opened and are not named like a manifest are passed
/// over.
proof fn lemma_entries_skipped(bytes: Seq<u8>, from: int, to: int)
    requires
        0 <= from <= to <= zip_entry_count(bytes),
        forall|j: int|
            from <= j < to ==> (#[trigger] zip_entry_name(bytes, j)) is Some && dialect_of(
                zip_entry_name(bytes, j)->0,
            ) is None,
    ensures
        manifest_from(bytes, from) == manifest_from(bytes, to),
    decreases to - from,
{
    if from < to {
        assert(zip_entry_name(bytes, from) is Some);
        lemma_entries_skipped(bytes, from + 1, to);
    }
}

/// Reads the identity from a parsed `mods.toml` of the given family.
pub fn toml_identity(doc: &Node, family: ModTypes) -> (found: Option<Detection>)
    ensures
        detection_view(found) == toml_identity_of(doc@, family),
{
    let entry = match doc.get("mods") {
        Some(mods) => match mods.first() {
            Some(entry) => entry,
            None => { return None; },
        },
        None => { return None; },
    };
    let version = if entry.get("version").is_some() {
        entry.scalar_under("version")
    } else {
        entry.scalar_under("modVersion")
    };
    identity_under(entry, "modId", family, version)
}

/// Reads the identity from a parsed `fabric.mod.json`.
pub fn fabric_identity(doc: &Node) -> (found: Option<Detection>)
    ensures
        detection_view(found) == fabric_identity_of(doc@),
{
    let version = doc.scalar_under("version");
    identity_under(doc, "id", ModTypes::Fabric, version)
}

/// Reads the identity from a parsed `mcmod.info`.
pub fn mcmod_identity(doc: &Node) -> (found: Option<Detection>)
    ensures
        detection_view(found) == mcmod_identity_of(doc@),
{
    match doc.first() {
        Some(entry) => {
            let version = entry.scalar_under("version");
            identity_under(entry, "modid", ModTypes::Forge, version)
        },
        None => None,
    }
}

/// Parses the text of a manifest and reads the identity from it.
pub fn read_manifest(dialect: Dialect, text: &str) -> (outcome: Result<
    Option<Detection>,
    InspectError,
>)
    ensures
        outcome_view(outcome) == manifest_outcome(dialect, text@),
{
    match dialect {
        Dialect::ModsToml => {
            let lower = to_lowercase(text);
            let family = forge_family(lower.as_str());
            match parse_toml(text) {
                Ok(doc) => Ok(toml_identity(&doc, family)),
                Err(e) => Err(InspectError::Toml(e)),
            }
        },
        Dialect::FabricModJson => match parse_json(text) {
            Ok(doc) => Ok(fabric_identity(&doc)),
            Err(e) => Err(InspectError::Json(e)),
        },
        Dialect::McmodInfo => match parse_json(text) {
            Ok(doc) => Ok(mcmod_identity(&doc)),
            Err(e) => Err(InspectError::Json(e)),
        },
    }
}

/// Looks for the manifest of an archive given by its bytes: walks its entries
/// in stored order and reads the text of the first one that is named like a
/// manifest. Nothing after that entry is looked at.
pub fn find_manifest(bytes: &[u8]) -> (found: Result<Option<Manifest>, InspectError>)
    ensures
        manifest_view(found) == manifest_of(bytes@),
{
    let ghost source = bytes@;
    let mut archive = match open_archive(bytes) {
        Ok(archive) => archive,
        Err(e) => { return Err(InspectError::Archive(e)); },
    };
    let count = entry_count(&archive);
    let mut index: usize = 0;
    while index < count
        invariant
            index <= count,
            source == bytes@,
            count == zip_entry_count(source),
            archive_source(archive) == source,
            manifest_of(source) == manifest_from(source, index as int),
        decreases count - index,
    {
        let name = match entry_name(&mut archive, index) {
            Ok(name) => name,
            Err(e) => { return Err(InspectError::Archive(e)); },
        };
        match dialect_of_name(name.as_str()) {
            Some(dialect) => {
                return match entry_text(&mut archive, index) {
                    Ok(text) => Ok(Some(Manifest { dialect, text })),
                    Err(e) => Err(InspectError::Archive(e)),
                };
            },
            None => {},
        }
        index += 1;
    }
    Ok(None)
}

/// Inspects an archive given by its bytes: finds its manifest and reads the
/// identity from it. `Ok(None)` says that the archive holds no manifest, or
/// that its manifest names no identifier.
pub fn get_mod_id_and_type(bytes: &[u8]) -> (outcome: Result<Option<Detection>, InspectError>)
    ensures
        outcome_view(outcome) == archive_outcome(bytes@),
{
    match find_manifest(bytes) {
        Ok(Some(manifest)) => read_manifest(manifest.dialect, manifest.text.as_str()),
        Ok(None) => Ok(None),
        Err(e) => Err(e),
    }
}

} // verus!
