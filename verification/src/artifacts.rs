//! Names and records of stored artifacts: the kinds of artifact, the rule
//! for artifact tags, and the manifests written beside each artifact.
use vstd::prelude::*;

verus! {

/// Kind of a stored artifact.
#[derive(Debug, Clone, Copy, PartialEq, Eq, Structural)]
pub enum ArtifactKind {
    Layers,
    Levels,
}

/// Name of the directory that holds artifacts of a kind.
pub open spec fn kind_dir(kind: ArtifactKind) -> Seq<char> {
    match kind {
        ArtifactKind::Layers => "layers"@,
        ArtifactKind::Levels => "levels"@,
    }
}

impl ArtifactKind {
    /// Name of the directory that holds artifacts of this kind.
    pub fn dir_name(&self) -> (r: &'static str)
        ensures
            r@ == kind_dir(*self),
    {
        match self {
            Self::Layers => "layers",
            Self::Levels => "levels",
        }
    }

    /// Name of the kind in messages; it is the directory name.
    pub fn display_name(&self) -> (r: &'static str)
        ensures
            r@ == kind_dir(*self),
    {
        match self {
            Self::Layers => "layers",
            Self::Levels => "levels",
        }
    }
}

/// Characters a tag may hold: ASCII letters and digits, hyphen, underscore.
pub open spec fn tag_char(c: char) -> bool {
    ('0' <= c <= '9') || ('a' <= c <= 'z') || ('A' <= c <= 'Z') || c == '-' || c == '_'
}

/// Whether `c` may stand in a tag.
pub fn is_tag_char(c: char) -> (r: bool)
    ensures
        r == tag_char(c),
{
    ('0' <= c && c <= '9') || ('a' <= c && c <= 'z') || ('A' <= c && c <= 'Z') || c == '-' || c
        == '_'
}

/// A refused artifact tag and the reason it was refused.
#[derive(Debug, Clone, PartialEq)]
pub struct InvalidTag {
    pub tag: String,
    pub reason: &'static str,
}

/// A tag is valid when it is not empty and every character may stand in a tag.
pub open spec fn valid_tag(tag: Seq<char>) -> bool {
    tag.len() > 0 && forall|i: int| 0 <= i < tag.len() ==> tag_char(#[trigger] tag[i])
}

/// Checks an artifact tag: it must not be empty, and may hold only ASCII
/// letters, digits, hyphens and underscores.
pub fn validate_tag(tag: &str) -> (r: Result<(), InvalidTag>)
    ensures
        r is Ok <==> valid_tag(tag@),
        r matches Err(e) ==> e.tag@ == tag@,
        r matches Err(e) ==> (tag@.len() == 0 ==> e.reason@ == "tag must not be empty"@),
        r matches Err(e) ==> (tag@.len() > 0 ==> e.reason@
            == "only alphanumeric, hyphens, underscores"@),
{
    let n = tag.unicode_len();
    if n == 0 {
        return Err(InvalidTag { tag: tag.to_owned(), reason: "tag must not be empty" });
    }
    let mut i: usize = 0;
    while i < n
        invariant
            i <= n,
            n == tag@.len(),
            forall|j: int| 0 <= j < i ==> tag_char(#[trigger] tag@[j]),
        decreases n - i,
    {
        if !is_tag_char(tag.get_char(i)) {
            return Err(
                InvalidTag { tag: tag.to_owned(), reason: "only alphanumeric, hyphens, underscores" },
            );
        }
        i = i + 1;
    }
    Ok(())
}

/// Record stored beside a set of generated world layers.
#[derive(Debug, Clone, PartialEq)]
pub struct LayerManifest {
    pub seed: u32,
    pub created: String,
    pub world_width: u32,
    pub world_height: u32,
    pub tile_width: u32,
    pub tile_height: u32,
    pub layer_images: Vec<String>,
}

/// Record stored beside a generated level.
#[derive(Debug, PartialEq)]
pub struct LevelManifest {
    pub parent_layers_tag: Option<String>,
    pub seed: u32,
    pub chunk_coord: (i32, i32),
    pub created: String,
}

impl Clone for LevelManifest {
    fn clone(&self) -> (r: Self)
        ensures
            r == *self,
    {
        let parent = match &self.parent_layers_tag {
            Some(t) => Some(t.clone()),
            None => None,
        };
        LevelManifest {
            parent_layers_tag: parent,
            seed: self.seed,
            chunk_coord: (self.chunk_coord.0, self.chunk_coord.1),
            created: self.created.clone(),
        }
    }
}

} // verus!
