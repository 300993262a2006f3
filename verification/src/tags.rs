//! The side tag and the loader family of a mod.

use crate::text::lowercase_of;
use crate::text::same_text;
use crate::text::to_lowercase;
use vstd::prelude::*;

verus! {

/// The side on which a mod runs.
#[derive(Clone, Copy, Debug, PartialEq, Eq, Structural)]
pub enum DefaultTags {
    Unknown,
    Client,
    Server,
    Both,
}

/// The loader family that a mod targets.
#[derive(Clone, Copy, Debug, PartialEq, Eq, Structural)]
pub enum ModTypes {
    Unknown,
    Forge,
    NeoForge,
    Fabric,
    Quilt,
}

/// The tag that a lowercase word selects: `client`, `server` and `both`
/// name their tags, every other word is `Unknown`.
pub open spec fn tag_of_word(word: Seq<char>) -> DefaultTags {
    if word == "client"@ {
        DefaultTags::Client
    } else if word == "server"@ {
        DefaultTags::Server
    } else if word == "both"@ {
        DefaultTags::Both
    } else {
        DefaultTags::Unknown
    }
}

/// The tag selected by a word that is already in lowercase.
pub fn tag_of_lowercase(word: &str) -> (tag: DefaultTags)
    ensures
        tag == tag_of_word(word@),
{
    if same_text(word, "client") {
        DefaultTags::Client
    } else if same_text(word, "server") {
        DefaultTags::Server
    } else if same_text(word, "both") {
        DefaultTags::Both
    } else {
        DefaultTags::Unknown
    }
}

/// Reads a tag from user input without regard to case. Input that names no tag
/// is `Unknown`.
pub fn parse_default_tag(s: &str) -> (tag: DefaultTags)
    ensures
        tag == tag_of_word(lowercase_of(s@)),
{
    let lower = to_lowercase(s);
    tag_of_lowercase(lower.as_str())
}

/// The word that stands for a tag in a module file.
pub open spec fn tag_label(tag: DefaultTags) -> Seq<char> {
    match tag {
        DefaultTags::Unknown => "Unknown"@,
        DefaultTags::Client => "Client"@,
        DefaultTags::Server => "Server"@,
        DefaultTags::Both => "Both"@,
    }
}

/// The tag that a module file's word stands for, if any. Case matters.
pub open spec fn tag_of_label(label: Seq<char>) -> Option<DefaultTags> {
    if label == "Unknown"@ {
        Some(DefaultTags::Unknown)
    } else if label == "Client"@ {
        Some(DefaultTags::Client)
    } else if label == "Server"@ {
        Some(DefaultTags::Server)
    } else if label == "Both"@ {
        Some(DefaultTags::Both)
    } else {
        None
    }
}

/// The word that stands for a loader family in a module file.
pub open spec fn type_label(kind: ModTypes) -> Seq<char> {
    match kind {
        ModTypes::Unknown => "Unknown"@,
        ModTypes::Forge => "Forge"@,
        ModTypes::NeoForge => "NeoForge"@,
        ModTypes::Fabric => "Fabric"@,
        ModTypes::Quilt => "Quilt"@,
    }
}

/// The loader family that a module file's word stands for, if any. Case
/// matters.
pub open spec fn type_of_label(label: Seq<char>) -> Option<ModTypes> {
    if label == "Unknown"@ {
        Some(ModTypes::Unknown)
    } else if label == "Forge"@ {
        Some(ModTypes::Forge)
    } else if label == "NeoForge"@ {
        Some(ModTypes::NeoForge)
    } else if label == "Fabric"@ {
        Some(ModTypes::Fabric)
    } else if label == "Quilt"@ {
        Some(ModTypes::Quilt)
    } else {
        None
    }
}

impl DefaultTags {
    /// The word that stands for this tag in a module file.
    pub fn label(&self) -> (word: String)
        ensures
            word@ == tag_label(*self),
    {
        match self {
            DefaultTags::Unknown => "Unknown".to_owned(),
            DefaultTags::Client => "Client".to_owned(),
            DefaultTags::Server => "Server".to_owned(),
            DefaultTags::Both => "Both".to_owned(),
        }
    }

    /// Reads a tag from its word in a module file.
    pub fn from_label(label: &str) -> (tag: Option<DefaultTags>)
        ensures
            tag == tag_of_label(label@),
    {
        if same_text(label, "Unknown") {
            Some(DefaultTags::Unknown)
        } else if same_text(label, "Client") {
            Some(DefaultTags::Client)
        } else if same_text(label, "Server") {
            Some(DefaultTags::Server)
        } else if same_text(label, "Both") {
            Some(DefaultTags::Both)
        } else {
            None
        }
    }
}

impl ModTypes {
    /// The word that stands for this loader family in a module file.
    pub fn label(&self) -> (word: String)
        ensures
            word@ == type_label(*self),
    {
        match self {
            ModTypes::Unknown => "Unknown".to_owned(),
            ModTypes::Forge => "Forge".to_owned(),
            ModTypes::NeoForge => "NeoForge".to_owned(),
            ModTypes::Fabric => "Fabric".to_owned(),
            ModTypes::Quilt => "Quilt".to_owned(),
        }
    }

    /// Reads a loader family from its word in a module file.
    pub fn from_label(label: &str) -> (kind: Option<ModTypes>)
        ensures
            kind == type_of_label(label@),
    {
        if same_text(label, "Unknown") {
            Some(ModTypes::Unknown)
        } else if same_text(label, "Forge") {
            Some(ModTypes::Forge)
        } else if same_text(label, "NeoForge") {
            Some(ModTypes::NeoForge)
        } else if same_text(label, "Fabric") {
            Some(ModTypes::Fabric)
        } else if same_text(label, "Quilt") {
            Some(ModTypes::Quilt)
        } else {
            None
        }
    }
}

/// Every tag is read back from its own label.
pub proof fn tag_label_round_trip(tag: DefaultTags)
    ensures
        tag_of_label(tag_label(tag)) == Some(tag),
{
    reveal_strlit("Unknown");
    reveal_strlit("Client");
    reveal_strlit("Server");
    reveal_strlit("Both");
    assert("Unknown"@.len() == 7 && "Both"@.len() == 4);
    assert("Client"@[0] == 'C' && "Server"@[0] == 'S');
}

/// Every loader family is read back from its own label.
pub proof fn type_label_round_trip(kind: ModTypes)
    ensures
        type_of_label(type_label(kind)) == Some(kind),
{
    reveal_strlit("Unknown");
    reveal_strlit("Forge");
    reveal_strlit("NeoForge");
    reveal_strlit("Fabric");
    reveal_strlit("Quilt");
    assert("Unknown"@.len() == 7 && "NeoForge"@.len() == 8 && "Fabric"@.len() == 6);
    assert("Forge"@[0] == 'F' && "Quilt"@[0] == 'Q');
}

} // verus!
