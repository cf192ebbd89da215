use vstd::prelude::*;

use crate::config::MediaExtensions;
use crate::paths::{file_name, file_name_of, parent, parent_of};
use crate::text::{chars_of, eq_ignore_ascii_case, last_index_of, lemma_last_index_of, lower_seq, push_char, rfind_char, string_from_range, to_ascii_lowercase};

verus! {

/// Whether the plan carries non-video files along.
#[derive(Debug, Clone, Copy, PartialEq, Eq)]
pub enum NonMediaPolicy {
    Keep,
    Ignore,
}

/// One file found under the source path.
#[derive(Debug, Clone)]
pub struct ScannedFile {
    pub path: String,
    pub file_name: String,
    pub parent_name: String,
    pub extension: String,
}

/// The files under the source path, by kind.
#[derive(Debug, Clone)]
pub struct ScanResult {
    pub video_files: Vec<ScannedFile>,
    pub subtitle_files: Vec<ScannedFile>,
    pub audio_files: Vec<ScannedFile>,
    pub other_files: Vec<ScannedFile>,
}

impl Default for ScanResult {
    fn default() -> (r: Self)
        ensures
            r.video_files@.len() == 0,
            r.subtitle_files@.len() == 0,
            r.audio_files@.len() == 0,
            r.other_files@.len() == 0,
    {
        ScanResult {
            video_files: Vec::new(),
            subtitle_files: Vec::new(),
            audio_files: Vec::new(),
            other_files: Vec::new(),
        }
    }
}

/// The extension of a path: the text after the last `.` of its file name, when there is
/// a `.` that does not start the name.
pub open spec fn extension_of(path: Seq<char>) -> Option<Seq<char>> {
    match file_name_of(path) {
        None => None,
        Some(name) => match last_index_of(name, '.') {
            None => None,
            Some(i) => if i == 0 {
                None
            } else {
                Some(name.subrange(i + 1, name.len() as int))
            },
        },
    }
}

/// The extension lowercased with a leading `.`, or empty without an extension.
pub open spec fn lowered_extension(path: Seq<char>) -> Seq<char> {
    match extension_of(path) {
        Some(e) => seq!['.'] + lower_seq(e),
        None => Seq::empty(),
    }
}

pub fn lower_ext(path: &str) -> (r: String)
    ensures
        r@ == lowered_extension(path@),
{
    let name = match file_name(path) {
        Some(n) => n,
        None => {
            return String::new();
        },
    };
    let cs = chars_of(name.as_str());
    proof {
        lemma_last_index_of(cs@, '.');
    }
    match rfind_char(&cs, '.') {
        None => String::new(),
        Some(i) => {
            if i == 0 {
                String::new()
            } else {
                assert(last_index_of(cs@, '.') == Some(i as int));
                assert(i < cs.len());
                let ext = string_from_range(&cs, i + 1, cs.len());
                let lowered = to_ascii_lowercase(ext.as_str());
                let mut out = String::new();
                push_char(&mut out, '.');
                out.append(lowered.as_str());
                assert(out@ =~= seq!['.'] + lower_seq(ext@));
                out
            }
        },
    }
}

/// The name of the folder a path lies in, or empty.
pub open spec fn parent_name_of(path: Seq<char>) -> Seq<char> {
    match parent_of(path) {
        Some(p) => match file_name_of(p) {
            Some(n) => n,
            None => Seq::empty(),
        },
        None => Seq::empty(),
    }
}

/// A scanned file for a path: its name, its folder's name, its lowered extension.
pub fn scanned_file(path: &str) -> (r: ScannedFile)
    ensures
        r.path@ == path@,
        r.file_name@ == (match file_name_of(path@) {
            Some(n) => n,
            None => Seq::empty(),
        }),
        r.parent_name@ == parent_name_of(path@),
        r.extension@ == lowered_extension(path@),
{
    let file_name_s = match file_name(path) {
        Some(n) => n,
        None => String::new(),
    };
    let parent_name = match parent(path) {
        Some(p) => match file_name(p.as_str()) {
            Some(n) => n,
            None => String::new(),
        },
        None => String::new(),
    };
    ScannedFile {
        path: crate::text::copy_str(path),
        file_name: file_name_s,
        parent_name,
        extension: lower_ext(path),
    }
}

/// Which list a file goes to.
#[derive(Debug, Clone, Copy, PartialEq, Eq)]
pub enum MediaClass {
    Video,
    Subtitle,
    Audio,
    Other,
}

/// `list` holds `ext`, ignoring ASCII case.
pub open spec fn listed(list: Seq<String>, ext: Seq<char>) -> bool {
    exists|i: int| 0 <= i < list.len() && lower_seq(#[trigger] list[i]@) == lower_seq(ext)
}

/// Video, subtitle, audio, in that order of precedence; other when no list holds it.
pub open spec fn class_of(exts: MediaExtensions, ext: Seq<char>) -> MediaClass {
    if listed(exts.video@, ext) {
        MediaClass::Video
    } else if listed(exts.subtitle@, ext) {
        MediaClass::Subtitle
    } else if listed(exts.audio@, ext) {
        MediaClass::Audio
    } else {
        MediaClass::Other
    }
}

fn holds_ext(list: &Vec<String>, ext: &str) -> (r: bool)
    ensures
        r == listed(list@, ext@),
{
    let mut i: usize = 0;
    while i < list.len()
        invariant
            i <= list.len(),
            forall|k: int| 0 <= k < i ==> lower_seq(#[trigger] list@[k]@) != lower_seq(ext@),
        decreases list.len() - i,
    {
        if eq_ignore_ascii_case(list[i].as_str(), ext) {
            return true;
        }
        i = i + 1;
    }
    false
}

pub fn classify(exts: &MediaExtensions, extension: &str) -> (r: MediaClass)
    ensures
        r == class_of(*exts, extension@),
{
    if holds_ext(&exts.video, extension) {
        MediaClass::Video
    } else if holds_ext(&exts.subtitle, extension) {
        MediaClass::Subtitle
    } else if holds_ext(&exts.audio, extension) {
        MediaClass::Audio
    } else {
        MediaClass::Other
    }
}

impl ScanResult {
    /// Adds a file to the list its extension selects.
    pub fn add(&mut self, exts: &MediaExtensions, file: ScannedFile)
        ensures
            final(self).video_files@ == (if class_of(*exts, file.extension@) == MediaClass::Video {
                old(self).video_files@.push(file)
            } else {
                old(self).video_files@
            }),
            final(self).subtitle_files@ == (if class_of(*exts, file.extension@) == MediaClass::Subtitle {
                old(self).subtitle_files@.push(file)
            } else {
                old(self).subtitle_files@
            }),
            final(self).audio_files@ == (if class_of(*exts, file.extension@) == MediaClass::Audio {
                old(self).audio_files@.push(file)
            } else {
                old(self).audio_files@
            }),
            final(self).other_files@ == (if class_of(*exts, file.extension@) == MediaClass::Other {
                old(self).other_files@.push(file)
            } else {
                old(self).other_files@
            }),
    {
        match classify(exts, file.extension.as_str()) {
            MediaClass::Video => self.video_files.push(file),
            MediaClass::Subtitle => self.subtitle_files.push(file),
            MediaClass::Audio => self.audio_files.push(file),
            MediaClass::Other => self.other_files.push(file),
        }
    }
}

/// What a scanned file holds, by view.
pub open spec fn scanned_view(path: Seq<char>) -> (Seq<char>, Seq<char>, Seq<char>, Seq<char>) {
    (
        path,
        match file_name_of(path) {
            Some(n) => n,
            None => Seq::empty(),
        },
        parent_name_of(path),
        lowered_extension(path),
    )
}

pub open spec fn file_view(f: ScannedFile) -> (Seq<char>, Seq<char>, Seq<char>, Seq<char>) {
    (f.path@, f.file_name@, f.parent_name@, f.extension@)
}

pub open spec fn files_view(v: Seq<ScannedFile>) -> Seq<(Seq<char>, Seq<char>, Seq<char>, Seq<char>)> {
    v.map_values(|f: ScannedFile| file_view(f))
}

/// The files among `paths` of class `class`, in order.
pub open spec fn files_of_class(paths: Seq<Seq<char>>, exts: MediaExtensions, class: MediaClass) -> Seq<(Seq<char>, Seq<char>, Seq<char>, Seq<char>)>
    decreases paths.len(),
{
    if paths.len() == 0 {
        Seq::empty()
    } else {
        let prev = files_of_class(paths.drop_last(), exts, class);
        if class_of(exts, lowered_extension(paths.last())) == class {
            prev.push(scanned_view(paths.last()))
        } else {
            prev
        }
    }
}

/// Sorts the files found under the source path into video, subtitle, audio and other
/// files, keeping their order.
pub fn scan_files(paths: &Vec<String>, exts: &MediaExtensions) -> (r: ScanResult)
    ensures
        files_view(r.video_files@) == files_of_class(paths.deep_view(), *exts, MediaClass::Video),
        files_view(r.subtitle_files@) == files_of_class(paths.deep_view(), *exts, MediaClass::Subtitle),
        files_view(r.audio_files@) == files_of_class(paths.deep_view(), *exts, MediaClass::Audio),
        files_view(r.other_files@) == files_of_class(paths.deep_view(), *exts, MediaClass::Other),
{
    let ghost pv = paths.deep_view();
    let mut out = ScanResult::default();
    assert(files_view(out.video_files@) =~= files_of_class(pv.take(0), *exts, MediaClass::Video));
    assert(files_view(out.subtitle_files@) =~= files_of_class(pv.take(0), *exts, MediaClass::Subtitle));
    assert(files_view(out.audio_files@) =~= files_of_class(pv.take(0), *exts, MediaClass::Audio));
    assert(files_view(out.other_files@) =~= files_of_class(pv.take(0), *exts, MediaClass::Other));
    let mut i: usize = 0;
    while i < paths.len()
        invariant
            pv == paths.deep_view(),
            i <= pv.len(),
            files_view(out.video_files@) == files_of_class(pv.take(i as int), *exts, MediaClass::Video),
            files_view(out.subtitle_files@) == files_of_class(pv.take(i as int), *exts, MediaClass::Subtitle),
            files_view(out.audio_files@) == files_of_class(pv.take(i as int), *exts, MediaClass::Audio),
            files_view(out.other_files@) == files_of_class(pv.take(i as int), *exts, MediaClass::Other),
        decreases paths.len() - i,
    {
        assert(pv.take(i + 1).drop_last() =~= pv.take(i as int));
        assert(pv.take(i + 1).last() == paths@[i as int]@);
        let f = scanned_file(paths[i].as_str());
        let ghost fv = file_view(f);
        let ghost before = out;
        out.add(exts, f);
        assert(files_view(before.video_files@.push(f)) =~= files_view(before.video_files@).push(fv));
        assert(files_view(before.subtitle_files@.push(f)) =~= files_view(before.subtitle_files@).push(fv));
        assert(files_view(before.audio_files@.push(f)) =~= files_view(before.audio_files@).push(fv));
        assert(files_view(before.other_files@.push(f)) =~= files_view(before.other_files@).push(fv));
        i = i + 1;
    }
    assert(pv.take(pv.len() as int) =~= pv);
    out
}

} // verus!
