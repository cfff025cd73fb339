//! The tags of an audio file under their usual names.
//!
//! The keys of Vorbis comments are free text. The tags that a tagging tool
//! shows are looked up under fixed names, without regard to ASCII case.
//! Where a name occurs more than once, the last occurrence counts. Keys that
//! match no name are passed over.

use vstd::prelude::*;
use crate::text::ascii_lowercase;
use crate::text::key_is;
use crate::vorbis::tag_views;
use crate::vorbis::Metadatum;
use crate::vorbis::TagView;
use crate::vorbis::VorbisCommentBlock;

verus! {

/// The tags of an audio file. A tag that the file does not hold is `None`.
#[derive(Debug)]
pub struct Metadata {
    pub album: Option<String>,
    pub album_artist: Option<String>,
    pub artist: Option<String>,
    pub comment: Option<String>,
    pub genre: Option<String>,
    pub date: Option<String>,
    pub disk_number: Option<String>,
    pub label: Option<String>,
    pub title: Option<String>,
    pub track_number: Option<String>,
}

/// The tags of an audio file as a mathematical value.
pub struct MetadataView {
    pub album: Option<Seq<char>>,
    pub album_artist: Option<Seq<char>>,
    pub artist: Option<Seq<char>>,
    pub comment: Option<Seq<char>>,
    pub genre: Option<Seq<char>>,
    pub date: Option<Seq<char>>,
    pub disk_number: Option<Seq<char>>,
    pub label: Option<Seq<char>>,
    pub title: Option<Seq<char>>,
    pub track_number: Option<Seq<char>>,
}

/// The characters of a text that may be missing.
pub open spec fn text_view(text: Option<String>) -> Option<Seq<char>> {
    match text {
        Some(text) => Some(text@),
        None => None,
    }
}

impl View for Metadata {
    type V = MetadataView;

    open spec fn view(&self) -> MetadataView {
        MetadataView {
            album: text_view(self.album),
            album_artist: text_view(self.album_artist),
            artist: text_view(self.artist),
            comment: text_view(self.comment),
            genre: text_view(self.genre),
            date: text_view(self.date),
            disk_number: text_view(self.disk_number),
            label: text_view(self.label),
            title: text_view(self.title),
            track_number: text_view(self.track_number),
        }
    }
}

impl MetadataView {
    /// No tag is set.
    pub open spec fn unset() -> MetadataView {
        MetadataView {
            album: None,
            album_artist: None,
            artist: None,
            comment: None,
            genre: None,
            date: None,
            disk_number: None,
            label: None,
            title: None,
            track_number: None,
        }
    }
}

/// The key names the tag `name`: it reads `name` once its ASCII capital
/// letters are taken in lower case.
pub open spec fn key_names(key: Seq<char>, name: Seq<char>) -> bool {
    ascii_lowercase(key) == name
}

/// The value of the last tag in the list whose key names `name`.
pub open spec fn tag_value(tags: Seq<TagView>, name: Seq<char>) -> Option<Seq<char>>
    decreases tags.len(),
{
    if tags.len() == 0 {
        None
    } else if key_names(tags.last().key, name) {
        Some(tags.last().value)
    } else {
        tag_value(tags.drop_last(), name)
    }
}

/// The tags that a list of comment fields sets.
pub open spec fn normalized(tags: Seq<TagView>) -> MetadataView {
    MetadataView {
        album: tag_value(tags, "album"@),
        album_artist: tag_value(tags, "albumartist"@),
        artist: tag_value(tags, "artist"@),
        comment: tag_value(tags, "comment"@),
        genre: tag_value(tags, "genre"@),
        date: tag_value(tags, "date"@),
        disk_number: tag_value(tags, "disknumber"@),
        label: tag_value(tags, "label"@),
        title: tag_value(tags, "title"@),
        track_number: tag_value(tags, "tracknumber"@),
    }
}

/// The tag set by one more field: its value where its key names the tag,
/// else what was set before.
pub open spec fn set_by(before: Option<Seq<char>>, tag: TagView, name: Seq<char>) -> Option<
    Seq<char>,
> {
    if key_names(tag.key, name) {
        Some(tag.value)
    } else {
        before
    }
}

/// A list with one more tag at its end sets what the longer list's last tag
/// sets, and otherwise what the shorter list sets.
pub proof fn lemma_tag_value_push(tags: Seq<TagView>, tag: TagView, name: Seq<char>)
    ensures
        tag_value(tags.push(tag), name) == set_by(tag_value(tags, name), tag, name),
{
    assert(tags.push(tag).last() == tag);
    assert(tags.push(tag).drop_last() == tags);
}

/// No field sets no tag.
pub proof fn lemma_normalized_empty()
    ensures
        normalized(Seq::empty()) == MetadataView::unset(),
{
}

/// Two keys that differ in nothing but ASCII case name the same tags.
pub proof fn lemma_key_case(first: Seq<char>, second: Seq<char>, name: Seq<char>)
    requires
        ascii_lowercase(first) == ascii_lowercase(second),
    ensures
        key_names(first, name) == key_names(second, name),
{
}

/// A tag whose name occurs again later in the list gives way to the later
/// occurrence.
pub proof fn lemma_last_value_wins(tags: Seq<TagView>, later: TagView, name: Seq<char>)
    requires
        key_names(later.key, name),
    ensures
        tag_value(tags.push(later), name) == Some(later.value),
{
    lemma_tag_value_push(tags, later, name);
}

/// A field whose key names none of the tags leaves the tags as they were.
pub proof fn lemma_unknown_key_ignored(tags: Seq<TagView>, tag: TagView)
    requires
        !key_names(tag.key, "album"@),
        !key_names(tag.key, "albumartist"@),
        !key_names(tag.key, "artist"@),
        !key_names(tag.key, "comment"@),
        !key_names(tag.key, "genre"@),
        !key_names(tag.key, "date"@),
        !key_names(tag.key, "disknumber"@),
        !key_names(tag.key, "label"@),
        !key_names(tag.key, "title"@),
        !key_names(tag.key, "tracknumber"@),
    ensures
        normalized(tags.push(tag)) == normalized(tags),
{
    lemma_tag_value_push(tags, tag, "album"@);
    lemma_tag_value_push(tags, tag, "albumartist"@);
    lemma_tag_value_push(tags, tag, "artist"@);
    lemma_tag_value_push(tags, tag, "comment"@);
    lemma_tag_value_push(tags, tag, "genre"@);
    lemma_tag_value_push(tags, tag, "date"@);
    lemma_tag_value_push(tags, tag, "disknumber"@);
    lemma_tag_value_push(tags, tag, "label"@);
    lemma_tag_value_push(tags, tag, "title"@);
    lemma_tag_value_push(tags, tag, "tracknumber"@);
}

/// Sets `slot` to the value of `tag` where the key of `tag` names `name`.
fn set_if_named(slot: &mut Option<String>, tag: &Metadatum, name: &str)
    ensures
        text_view(*final(slot)) == set_by(text_view(*old(slot)), tag@, name@),
{
    if key_is(tag.key.as_str(), name) {
        *slot = Some(tag.value.clone());
    }
}

impl Metadata {
    /// Tags of which none is set.
    pub fn new() -> (tags: Self)
        ensures
            tags@ == MetadataView::unset(),
    {
        Metadata {
            album: None,
            album_artist: None,
            artist: None,
            comment: None,
            genre: None,
            date: None,
            disk_number: None,
            label: None,
            title: None,
            track_number: None,
        }
    }

    /// Takes one more comment field into the tags.
    pub fn apply(&mut self, tag: &Metadatum)
        ensures
            final(self)@ == (MetadataView {
                album: set_by(old(self)@.album, tag@, "album"@),
                album_artist: set_by(old(self)@.album_artist, tag@, "albumartist"@),
                artist: set_by(old(self)@.artist, tag@, "artist"@),
                comment: set_by(old(self)@.comment, tag@, "comment"@),
                genre: set_by(old(self)@.genre, tag@, "genre"@),
                date: set_by(old(self)@.date, tag@, "date"@),
                disk_number: set_by(old(self)@.disk_number, tag@, "disknumber"@),
                label: set_by(old(self)@.label, tag@, "label"@),
                title: set_by(old(self)@.title, tag@, "title"@),
                track_number: set_by(old(self)@.track_number, tag@, "tracknumber"@),
            }),
    {
        set_if_named(&mut self.album, tag, "album");
        set_if_named(&mut self.album_artist, tag, "albumartist");
        set_if_named(&mut self.artist, tag, "artist");
        set_if_named(&mut self.comment, tag, "comment");
        set_if_named(&mut self.genre, tag, "genre");
        set_if_named(&mut self.date, tag, "date");
        set_if_named(&mut self.disk_number, tag, "disknumber");
        set_if_named(&mut self.label, tag, "label");
        set_if_named(&mut self.title, tag, "title");
        set_if_named(&mut self.track_number, tag, "tracknumber");
    }
}

impl Default for Metadata {
    fn default() -> (tags: Self)
        ensures
            tags@ == MetadataView::unset(),
    {
        Metadata::new()
    }
}

/// Collects the tags of a Vorbis comment block under their usual names.
///
/// The keys `title`, `artist`, `album`, `albumartist`, `genre`, `comment`,
/// `label`, `date`, `disknumber` and `tracknumber` are known, in any ASCII
/// case. Of two fields with one key the later one counts. Other fields are
/// passed over.
pub fn normalize(block: &VorbisCommentBlock) -> (tags: Metadata)
    ensures
        tags@ == normalized(block@.tags()),
{
    let mut tags = Metadata::new();
    match &block.fields {
        Some(fields) => {
            let mut index: usize = 0;
            while index < fields.len()
                invariant
                    index <= fields.len(),
                    tags@ == normalized(tag_views(fields@).take(index as int)),
                decreases fields.len() - index,
            {
                let ghost seen = tag_views(fields@).take(index as int);
                let tag = &fields[index];
                tags.apply(tag);
                proof {
                    assert(tag_views(fields@).take(index + 1) == seen.push(tag@));
                    lemma_tag_value_push(seen, tag@, "album"@);
                    lemma_tag_value_push(seen, tag@, "albumartist"@);
                    lemma_tag_value_push(seen, tag@, "artist"@);
                    lemma_tag_value_push(seen, tag@, "comment"@);
                    lemma_tag_value_push(seen, tag@, "genre"@);
                    lemma_tag_value_push(seen, tag@, "date"@);
                    lemma_tag_value_push(seen, tag@, "disknumber"@);
                    lemma_tag_value_push(seen, tag@, "label"@);
                    lemma_tag_value_push(seen, tag@, "title"@);
                    lemma_tag_value_push(seen, tag@, "tracknumber"@);
                }
                index += 1;
            }
            assert(tag_views(fields@).take(index as int) == tag_views(fields@));
        },
        None => {},
    }
    tags
}

} // verus!
