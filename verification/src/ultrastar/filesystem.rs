//! Song files on disk: which entries of a directory are song files, and
//! which files lie beside them.
//!
//! The library does not read directories. It is handed what was read: the
//! entries of each directory that a search went through.

use crate::chars::chars_of;
use vstd::prelude::*;

verus! {

/// One file of a song's directory.
#[derive(Debug, Clone)]
pub struct FileEntry {
    /// The file's full path.
    pub path: String,
    /// The file's name within its directory.
    pub filename: String,
}

/// What an entry of a directory is.
#[derive(Debug, Clone, Copy, PartialEq, Eq, Structural)]
pub enum EntryKind {
    File,
    Directory,
    Other,
}

/// One entry of a directory, as it was read.
#[derive(Debug)]
pub struct DirEntry {
    pub path: String,
    pub filename: String,
    pub kind: EntryKind,
}

/// One stop of a search for song files.
#[derive(Debug)]
pub enum Visit {
    /// A directory, with its entries.
    Directory { entries: Vec<DirEntry> },
    /// A file that was named directly, with the entries of its directory.
    File { path: String, filename: String, siblings: Vec<DirEntry> },
}

/// A song file and the files of its directory.
#[derive(Debug)]
pub struct SongFiles {
    pub txt_path: String,
    pub files: Vec<FileEntry>,
}

/// The name has the extension `txt`: it ends with `.txt`, in lower case,
/// and something stands before that.
pub open spec fn is_txt_name(filename: Seq<char>) -> bool {
    let n = filename.len();
    n >= 5 && filename[n - 4] == '.' && filename[n - 3] == 't' && filename[n - 2] == 'x'
        && filename[n - 1] == 't'
}

/// The files among the first `upto` of `entries`, in order.
pub open spec fn files_among(entries: Seq<DirEntry>, upto: int) -> Seq<FileEntry>
    decreases upto,
{
    if upto <= 0 {
        Seq::empty()
    } else {
        let before = files_among(entries, upto - 1);
        if entries[upto - 1].kind is File {
            before.push(
                FileEntry { path: entries[upto - 1].path, filename: entries[upto - 1].filename },
            )
        } else {
            before
        }
    }
}

/// The song files among the first `upto` of `entries`, in order, each with
/// `files` beside it.
pub open spec fn songs_among(entries: Seq<DirEntry>, upto: int, files: Seq<FileEntry>) -> Seq<
    (String, Seq<FileEntry>),
>
    decreases upto,
{
    if upto <= 0 {
        Seq::empty()
    } else {
        let before = songs_among(entries, upto - 1, files);
        if entries[upto - 1].kind is File && is_txt_name(entries[upto - 1].filename@) {
            before.push((entries[upto - 1].path, files))
        } else {
            before
        }
    }
}

/// The song files that one stop of a search finds: every file of a
/// directory that has the extension `txt`; or the file that was named
/// directly, if it has it. Each comes with all files of its directory.
pub open spec fn songs_of(visit: Visit) -> Seq<(String, Seq<FileEntry>)> {
    match visit {
        Visit::Directory { entries } => songs_among(
            entries@,
            entries.len() as int,
            files_among(entries@, entries.len() as int),
        ),
        Visit::File { path, filename, siblings } => if is_txt_name(filename@) {
            seq![(path, files_among(siblings@, siblings.len() as int))]
        } else {
            Seq::empty()
        },
    }
}

/// The song files that the first `upto` stops of a search find, in order.
pub open spec fn songs_found(visits: Seq<Visit>, upto: int) -> Seq<(String, Seq<FileEntry>)>
    decreases upto,
{
    if upto <= 0 {
        Seq::empty()
    } else {
        songs_found(visits, upto - 1) + songs_of(visits[upto - 1])
    }
}

/// Whether a file name has the extension `txt`.
pub fn has_txt_extension(filename: &str) -> (yes: bool)
    ensures
        yes == is_txt_name(filename@),
{
    let chars = chars_of(filename);
    let n = chars.len();
    n >= 5 && chars[n - 4] == '.' && chars[n - 3] == 't' && chars[n - 2] == 'x' && chars[n - 1]
        == 't'
}

/// The files of a directory: its entries that are files, in order.
pub fn get_files_in_directory(entries: &Vec<DirEntry>) -> (files: Vec<FileEntry>)
    ensures
        files@ == files_among(entries@, entries.len() as int),
{
    let mut files: Vec<FileEntry> = Vec::new();
    let mut i: usize = 0;
    while i < entries.len()
        invariant
            i <= entries.len(),
            files@ == files_among(entries@, i as int),
        decreases entries.len() - i,
    {
        match entries[i].kind {
            EntryKind::File => {
                files.push(
                    FileEntry {
                        path: entries[i].path.clone(),
                        filename: entries[i].filename.clone(),
                    },
                );
            },
            _ => {},
        }
        i += 1;
    }
    files
}

/// The song files as pairs of path and files.
pub open spec fn songs_view(found: Seq<SongFiles>) -> Seq<(String, Seq<FileEntry>)> {
    Seq::new(found.len(), |k: int| (found[k].txt_path, found[k].files@))
}

/// No path occurs twice among `songs`.
pub open spec fn has_distinct_paths(songs: Seq<(String, Seq<FileEntry>)>) -> bool {
    forall|j: int, k: int|
        0 <= j < k < songs.len() ==> (#[trigger] songs[j]).0@ != (#[trigger] songs[k]).0@
}

/// Some song among `songs` has the path `path`.
pub open spec fn holds_path(songs: Seq<(String, Seq<FileEntry>)>, path: Seq<char>) -> bool {
    exists|k: int| 0 <= k < songs.len() && (#[trigger] songs[k]).0@ == path
}

/// `songs` with the song at `path` put in: where a song of that path is
/// there already, it keeps its place and gets the new files; else the song
/// is added at the end.
pub open spec fn with_song(
    songs: Seq<(String, Seq<FileEntry>)>,
    path: String,
    files: Seq<FileEntry>,
) -> Seq<(String, Seq<FileEntry>)> {
    if holds_path(songs, path@) {
        let k = choose|k: int| 0 <= k < songs.len() && (#[trigger] songs[k]).0@ == path@;
        songs.update(k, (songs[k].0, files))
    } else {
        songs.push((path, files))
    }
}

/// `base` with the first `upto` of `wanted` put in, one after the other.
pub open spec fn merged_onto(
    base: Seq<(String, Seq<FileEntry>)>,
    wanted: Seq<(String, Seq<FileEntry>)>,
    upto: int,
) -> Seq<(String, Seq<FileEntry>)>
    decreases upto,
{
    if upto <= 0 {
        base
    } else {
        with_song(merged_onto(base, wanted, upto - 1), wanted[upto - 1].0, wanted[upto - 1].1)
    }
}

/// The songs of `wanted`, each path once: a song that comes again takes
/// the place of the one that came before.
pub open spec fn merged(wanted: Seq<(String, Seq<FileEntry>)>) -> Seq<(String, Seq<FileEntry>)> {
    merged_onto(Seq::empty(), wanted, wanted.len() as int)
}

/// Putting a song in keeps the paths distinct, keeps every path that was
/// there, and makes the song's path one of them.
pub proof fn lemma_with_song(
    songs: Seq<(String, Seq<FileEntry>)>,
    path: String,
    files: Seq<FileEntry>,
)
    requires
        has_distinct_paths(songs),
    ensures
        has_distinct_paths(with_song(songs, path, files)),
        holds_path(with_song(songs, path, files), path@),
        forall|other: Seq<char>|
            holds_path(songs, other) ==> #[trigger] holds_path(with_song(songs, path, files), other),
        forall|other: Seq<char>|
            #[trigger] holds_path(with_song(songs, path, files), other) ==> holds_path(
                songs,
                other,
            ) || other == path@,
{
    let after = with_song(songs, path, files);
    if holds_path(songs, path@) {
        let k = choose|k: int| 0 <= k < songs.len() && (#[trigger] songs[k]).0@ == path@;
        assert forall|i: int, j: int| 0 <= i < j < after.len() implies (#[trigger] after[i]).0@ != (
        #[trigger] after[j]).0@ by {
            assert(after[i].0 == songs[i].0);
            assert(after[j].0 == songs[j].0);
        }
        assert(after[k].0@ == path@);
        assert forall|other: Seq<char>| holds_path(songs, other) implies #[trigger] holds_path(
            after,
            other,
        ) by {
            let i = choose|i: int| 0 <= i < songs.len() && (#[trigger] songs[i]).0@ == other;
            assert(after[i].0 == songs[i].0);
        }
        assert forall|other: Seq<char>| #[trigger] holds_path(after, other) implies holds_path(
            songs,
            other,
        ) || other == path@ by {
            let i = choose|i: int| 0 <= i < after.len() && (#[trigger] after[i]).0@ == other;
            assert(songs[i].0 == after[i].0);
        }
    } else {
        assert forall|i: int, j: int| 0 <= i < j < after.len() implies (#[trigger] after[i]).0@ != (
        #[trigger] after[j]).0@ by {
            assert(after[i] == songs[i]);
            if j < songs.len() {
                assert(after[j] == songs[j]);
            }
        }
        assert(after[songs.len() as int].0@ == path@);
        assert forall|other: Seq<char>| holds_path(songs, other) implies #[trigger] holds_path(
            after,
            other,
        ) by {
            let i = choose|i: int| 0 <= i < songs.len() && (#[trigger] songs[i]).0@ == other;
            assert(after[i] == songs[i]);
        }
        assert forall|other: Seq<char>| #[trigger] holds_path(after, other) implies holds_path(
            songs,
            other,
        ) || other == path@ by {
            let i = choose|i: int| 0 <= i < after.len() && (#[trigger] after[i]).0@ == other;
            if i < songs.len() {
                assert(songs[i] == after[i]);
            }
        }
    }
}

/// However many songs are put in, no path occurs twice, and the paths
/// that occur are those of the base and of the songs put in.
pub proof fn lemma_merged_paths(
    base: Seq<(String, Seq<FileEntry>)>,
    wanted: Seq<(String, Seq<FileEntry>)>,
    upto: int,
)
    requires
        has_distinct_paths(base),
        0 <= upto <= wanted.len(),
    ensures
        has_distinct_paths(merged_onto(base, wanted, upto)),
        forall|path: Seq<char>|
            #[trigger] holds_path(merged_onto(base, wanted, upto), path) <==> holds_path(
                base,
                path,
            ) || holds_path(wanted.take(upto), path),
    decreases upto,
{
    let now = merged_onto(base, wanted, upto);
    if upto > 0 {
        let before = merged_onto(base, wanted, upto - 1);
        let last = wanted[upto - 1];
        lemma_merged_paths(base, wanted, upto - 1);
        lemma_with_song(before, last.0, last.1);
        let shorter = wanted.take(upto - 1);
        let longer = wanted.take(upto);
        assert forall|path: Seq<char>| #[trigger] holds_path(now, path) <==> holds_path(
            base,
            path,
        ) || holds_path(longer, path) by {
            if holds_path(shorter, path) {
                let i = choose|i: int| 0 <= i < shorter.len() && (#[trigger] shorter[i]).0@ == path;
                assert(longer[i].0@ == path);
            }
            if holds_path(longer, path) {
                let i = choose|i: int| 0 <= i < longer.len() && (#[trigger] longer[i]).0@ == path;
                if i < upto - 1 {
                    assert(shorter[i].0@ == path);
                } else {
                    assert(path == last.0@);
                }
            }
            if path == last.0@ {
                assert(longer[upto - 1].0@ == path);
            }
            assert(holds_path(before, path) <==> holds_path(base, path) || holds_path(
                shorter,
                path,
            ));
        }
    } else {
        assert(wanted.take(0).len() == 0);
    }
}

/// Putting in one list of songs and then another is putting in the two
/// lists joined.
pub proof fn lemma_merged_joined(
    base: Seq<(String, Seq<FileEntry>)>,
    first: Seq<(String, Seq<FileEntry>)>,
    second: Seq<(String, Seq<FileEntry>)>,
    upto: int,
)
    requires
        0 <= upto <= second.len(),
    ensures
        merged_onto(merged_onto(base, first, first.len() as int), second, upto) == merged_onto(
            base,
            first + second,
            first.len() + upto,
        ),
    decreases upto,
{
    let joined = first + second;
    if upto > 0 {
        lemma_merged_joined(base, first, second, upto - 1);
        assert(joined[first.len() + upto - 1] == second[upto - 1]);
    } else {
        lemma_merged_same_start(base, first, joined, first.len() as int);
    }
}

/// What is put in from the start of a list does not depend on what
/// follows in the list.
pub proof fn lemma_merged_same_start(
    base: Seq<(String, Seq<FileEntry>)>,
    wanted: Seq<(String, Seq<FileEntry>)>,
    longer: Seq<(String, Seq<FileEntry>)>,
    upto: int,
)
    requires
        0 <= upto <= wanted.len() <= longer.len(),
        forall|i: int| 0 <= i < wanted.len() ==> #[trigger] longer[i] == wanted[i],
    ensures
        merged_onto(base, longer, upto) == merged_onto(base, wanted, upto),
    decreases upto,
{
    if upto > 0 {
        lemma_merged_same_start(base, wanted, longer, upto - 1);
        assert(longer[upto - 1] == wanted[upto - 1]);
    }
}

/// Puts a song among the songs found: a song of the same path keeps its
/// place and gets the new files; a song of a new path is added at the end.
pub fn insert_song(found: &mut Vec<SongFiles>, song: SongFiles)
    requires
        has_distinct_paths(songs_view(old(found)@)),
    ensures
        songs_view(final(found)@) == with_song(
            songs_view(old(found)@),
            song.txt_path,
            song.files@,
        ),
        has_distinct_paths(songs_view(final(found)@)),
{
    let ghost before = songs_view(found@);
    proof {
        lemma_with_song(before, song.txt_path, song.files@);
    }
    let mut k: usize = 0;
    while k < found.len()
        invariant
            k <= found.len(),
            found@ == old(found)@,
            before == songs_view(found@),
            has_distinct_paths(before),
            has_distinct_paths(with_song(before, song.txt_path, song.files@)),
            forall|j: int| 0 <= j < k ==> (#[trigger] before[j]).0@ != song.txt_path@,
        decreases found.len() - k,
    {
        if found[k].txt_path == song.txt_path {
            assert(before[k as int].0@ == song.txt_path@);
            assert(holds_path(before, song.txt_path@));
            let ghost chosen = choose|c: int|
                0 <= c < before.len() && (#[trigger] before[c]).0@ == song.txt_path@;
            assert(chosen == k) by {
                if chosen < k {
                    assert(before[chosen].0@ != song.txt_path@);
                } else if chosen > k {
                    assert(before[k as int].0@ != before[chosen].0@);
                }
            }
            let kept = found.remove(k);
            found.insert(k, SongFiles { txt_path: kept.txt_path, files: song.files });
            assert(songs_view(found@) =~= before.update(k as int, (before[k as int].0, song.files@)));
            return ;
        }
        k += 1;
    }
    assert(!holds_path(before, song.txt_path@)) by {
        if holds_path(before, song.txt_path@) {
            let c = choose|c: int|
                0 <= c < before.len() && (#[trigger] before[c]).0@ == song.txt_path@;
            assert(before[c].0@ != song.txt_path@);
        }
    }
    let ghost path = song.txt_path;
    let ghost files = song.files@;
    found.push(song);
    assert(songs_view(found@) =~= before.push((path, files)));
}

/// Putting in one song more, after those of a list.
pub proof fn lemma_merged_one_more(
    base: Seq<(String, Seq<FileEntry>)>,
    wanted: Seq<(String, Seq<FileEntry>)>,
    path: String,
    files: Seq<FileEntry>,
)
    ensures
        merged_onto(base, wanted.push((path, files)), wanted.len() as int + 1) == with_song(
            merged_onto(base, wanted, wanted.len() as int),
            path,
            files,
        ),
{
    let longer = wanted.push((path, files));
    lemma_merged_same_start(base, wanted, longer, wanted.len() as int);
    assert(longer[wanted.len() as int] == (path, files));
}

/// Puts the song files that one stop of a search finds among the songs
/// found, one after the other.
pub fn merge_txt_files(visit: &Visit, found: &mut Vec<SongFiles>)
    requires
        has_distinct_paths(songs_view(old(found)@)),
    ensures
        songs_view(final(found)@) == merged_onto(
            songs_view(old(found)@),
            songs_of(*visit),
            songs_of(*visit).len() as int,
        ),
        has_distinct_paths(songs_view(final(found)@)),
{
    let ghost base = songs_view(found@);
    match visit {
        Visit::Directory { entries } => {
            let ghost files = files_among(entries@, entries.len() as int);
            let mut i: usize = 0;
            while i < entries.len()
                invariant
                    i <= entries.len(),
                    files == files_among(entries@, entries.len() as int),
                    songs_view(found@) == merged_onto(
                        base,
                        songs_among(entries@, i as int, files),
                        songs_among(entries@, i as int, files).len() as int,
                    ),
                    has_distinct_paths(songs_view(found@)),
                decreases entries.len() - i,
            {
                let is_file = match entries[i].kind {
                    EntryKind::File => true,
                    _ => false,
                };
                if is_file && has_txt_extension(entries[i].filename.as_str()) {
                    let song = SongFiles {
                        txt_path: entries[i].path.clone(),
                        files: get_files_in_directory(entries),
                    };
                    proof {
                        lemma_merged_one_more(
                            base,
                            songs_among(entries@, i as int, files),
                            song.txt_path,
                            song.files@,
                        );
                    }
                    insert_song(found, song);
                }
                i += 1;
            }
        },
        Visit::File { path, filename, siblings } => {
            if has_txt_extension(filename.as_str()) {
                let song = SongFiles {
                    txt_path: path.clone(),
                    files: get_files_in_directory(siblings),
                };
                proof {
                    lemma_merged_one_more(base, Seq::empty(), song.txt_path, song.files@);
                    assert(Seq::<(String, Seq<FileEntry>)>::empty().push(
                        (song.txt_path, song.files@),
                    ) =~= songs_of(*visit));
                }
                insert_song(found, song);
            }
        },
    }
}

/// The song files that a search found, from the stops it went through: all
/// that each stop finds, in the order of the stops, each path once. Where
/// stops overlap, so that a song file is found again, the song keeps its
/// place and gets the files that were found with it last.
pub fn traverse_and_find_txt_files(visits: &Vec<Visit>) -> (found: Vec<SongFiles>)
    ensures
        songs_view(found@) == merged(songs_found(visits@, visits.len() as int)),
        has_distinct_paths(songs_view(found@)),
{
    let mut found: Vec<SongFiles> = Vec::new();
    assert(songs_view(found@) =~= Seq::<(String, Seq<FileEntry>)>::empty());
    let mut v: usize = 0;
    while v < visits.len()
        invariant
            v <= visits.len(),
            songs_view(found@) == merged(songs_found(visits@, v as int)),
            has_distinct_paths(songs_view(found@)),
        decreases visits.len() - v,
    {
        proof {
            let these = songs_of(visits@[v as int]);
            lemma_merged_joined(
                Seq::empty(),
                songs_found(visits@, v as int),
                these,
                these.len() as int,
            );
        }
        merge_txt_files(&visits[v], &mut found);
        v += 1;
    }
    found
}

} // verus!
