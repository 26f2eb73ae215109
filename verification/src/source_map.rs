//! The files of a program, in one space of offsets.


use vstd::prelude::*;

verus! {

/// The number of a file: its place in the order of registration.
#[derive(Debug, Clone, Copy, PartialEq, Eq, Structural, Hash)]
pub struct FileId(pub u32);

/// A file, and the offset that the spans in it start from.
#[derive(Debug)]
pub struct SourceFile {
    pub id: FileId,
    pub name: String,
    pub start: u32,
    pub text: String,
}

pub ghost struct FileView {
    pub id: FileId,
    pub name: Seq<char>,
    pub start: u32,
    pub text: Seq<char>,
}

impl View for SourceFile {
    type V = FileView;

    open spec fn view(&self) -> FileView {
        FileView { id: self.id, name: self.name@, start: self.start, text: self.text@ }
    }
}

/// The files registered so far.
#[derive(Debug)]
pub struct SourceMap {
    pub files: Vec<SourceFile>,
}

impl View for SourceMap {
    type V = Seq<FileView>;

    open spec fn view(&self) -> Seq<FileView> {
        self.files@.map_values(|file: SourceFile| file@)
    }
}

/// The bytes a text takes.
pub open spec fn byte_len(text: Seq<char>) -> nat {
    vstd::utf8::encode_utf8(text).len()
}

/// The offset at which the next file starts: one past the end of the last, so that no offset is
/// both the end of one file and the start of another.
pub open spec fn next_start(files: Seq<FileView>) -> nat {
    if files.len() == 0 {
        0
    } else {
        files.last().start as nat + byte_len(files.last().text) + 1
    }
}

/// Whether another file still fits in the space of offsets.
pub open spec fn has_room(files: Seq<FileView>) -> bool {
    next_start(files) <= u32::MAX && files.len() < u32::MAX
}

/// The files with one more.
pub open spec fn with_file(files: Seq<FileView>, name: Seq<char>, text: Seq<char>) -> Seq<FileView> {
    files.push(
        FileView { id: FileId(files.len() as u32), name, start: next_start(files) as u32, text },
    )
}

/// Whether a file's number is its place, and it follows the one before.
pub open spec fn follows(files: Seq<FileView>, i: int) -> bool {
    files[i].id.0 == i && files[i].start == next_start(files.take(i))
}

/// Whether every file's number is its place, and the files follow each other without overlap.
pub open spec fn laid_out(files: Seq<FileView>) -> bool {
    forall|i: int| 0 <= i < files.len() ==> #[trigger] follows(files, i)
}

/// The last file before `end` that starts at or before the offset.
pub open spec fn file_at(files: Seq<FileView>, offset: u32, end: nat) -> Option<nat>
    decreases end,
{
    if end == 0 || end > files.len() {
        None
    } else if files[end - 1].start <= offset {
        Some((end - 1) as nat)
    } else {
        file_at(files, offset, (end - 1) as nat)
    }
}

impl Default for SourceMap {
    fn default() -> (map: SourceMap)
        ensures
            map@ == Seq::<FileView>::empty(),
    {
        let map = SourceMap { files: Vec::new() };
        assert(map@ =~= Seq::<FileView>::empty());
        map
    }
}

impl SourceMap {
    pub fn new() -> (map: SourceMap)
        ensures
            map@ == Seq::<FileView>::empty(),
    {
        let map = SourceMap { files: Vec::new() };
        assert(map@ =~= Seq::<FileView>::empty());
        map
    }

    pub fn is_empty(&self) -> (empty: bool)
        ensures
            empty == (self@.len() == 0),
    {
        self.files.len() == 0
    }

    /// Registers a file and gives its number and the offset its spans are relative to.
    pub fn add_file(&mut self, name: String, text: String) -> (place: (FileId, u32))
        requires
            has_room(old(self)@),
        ensures
            final(self)@ == with_file(old(self)@, name@, text@),
            place == (final(self)@.last().id, final(self)@.last().start),
    {
        let count: usize = self.files.len();
        let mut start: u32 = 0;
        if count > 0 {
            let last = &self.files[count - 1];
            assert(self@.last() == last@);
            let len: usize = last.text.as_str().len();
            start = last.start + len as u32 + 1;
        }
        let id = FileId(count as u32);
        self.files.push(SourceFile { id, name, start, text });
        assert(self@ =~= with_file(old(self)@, name@, text@));
        (id, start)
    }

    /// Whether another file still gets offsets of its own.
    pub fn can_add(&self) -> (room: bool)
        ensures
            room == has_room(self@),
    {
        let count: usize = self.files.len();
        if count == 0 {
            return true;
        }
        let last = &self.files[count - 1];
        assert(self@.last() == last@);
        let len: usize = last.text.as_str().as_bytes().len();
        let end: u128 = last.start as u128 + len as u128 + 1;
        count < 0xFFFF_FFFF && end <= 0xFFFF_FFFF
    }

    /// The file an offset falls in.
    pub fn file_of(&self, offset: u32) -> (file: Option<usize>)
        ensures
            match file {
                Some(index) => file_at(self@, offset, self@.len()) == Some(index as nat) && index
                    < self.files@.len(),
                None => file_at(self@, offset, self@.len()) is None,
            },
    {
        let mut end: usize = self.files.len();
        while end > 0
            invariant
                end <= self.files@.len(),
                self@.len() == self.files@.len(),
                file_at(self@, offset, self@.len()) == file_at(self@, offset, end as nat),
            decreases end,
        {
            assert(self@[end - 1] == self.files@[end - 1]@);
            if self.files[end - 1].start <= offset {
                return Some(end - 1);
            }
            end = end - 1;
        }
        None
    }
}

/// Registering a file keeps the files in order and apart.
pub proof fn lemma_with_file(files: Seq<FileView>, name: Seq<char>, text: Seq<char>)
    requires
        laid_out(files),
        has_room(files),
    ensures
        laid_out(with_file(files, name, text)),
        files.is_prefix_of(with_file(files, name, text)),
{
    let after = with_file(files, name, text);
    assert forall|i: int| 0 <= i < after.len() implies #[trigger] follows(after, i) by {
        assert(after.take(i) =~= files.take(i));
        if i < files.len() {
            assert(follows(files, i));
            assert(after[i] == files[i]);
        } else {
            assert(files.take(i) =~= files);
        }
    }
}

/// Later files start past the end of earlier ones.
proof fn lemma_starts_increase(files: Seq<FileView>, i: int, j: int)
    requires
        laid_out(files),
        0 <= i < j < files.len(),
    ensures
        files[j].start > files[i].start + byte_len(files[i].text),
    decreases j,
{
    assert(follows(files, j));
    assert(files.take(j).last() == files[j - 1]);
    if i < j - 1 {
        lemma_starts_increase(files, i, j - 1);
    }
}

/// Every offset in a file, its end among them, is found in that file.
pub proof fn lemma_file_found(files: Seq<FileView>, i: int, offset: u32)
    requires
        laid_out(files),
        0 <= i < files.len(),
        files[i].start <= offset <= files[i].start + byte_len(files[i].text),
    ensures
        file_at(files, offset, files.len()) == Some(i as nat),
{
    lemma_file_found_before(files, i, offset, files.len());
}

proof fn lemma_file_found_before(files: Seq<FileView>, i: int, offset: u32, end: nat)
    requires
        laid_out(files),
        0 <= i < end <= files.len(),
        files[i].start <= offset <= files[i].start + byte_len(files[i].text),
    ensures
        file_at(files, offset, end) == Some(i as nat),
    decreases end,
{
    if end - 1 > i {
        lemma_starts_increase(files, i, end - 1);
        lemma_file_found_before(files, i, offset, (end - 1) as nat);
    }
}

} // verus!
