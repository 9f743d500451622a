//! The image pipeline: staged uploads, commit-by-id renaming, listing,
//! deletion, reconciliation of the content directory against the metadata
//! rows, and the byte lookup behind static serving.
//!
//! The store models what the pipeline reads and writes: the metadata table
//! as a creation-ordered sequence of rows, and the content directory as a
//! set of named byte files. The application mirrors every transition onto
//! its database and filesystem; the decisions — which names collide, which
//! file moves where, what a page contains — are all made and proved here.

use vstd::prelude::*;
use vstd::string::StringExecFns;

use crate::errors::ApiError;
use crate::pagination::page_window;
use crate::pagination::spec_page_end;
use crate::pagination::spec_page_start;
use crate::schemas::CreateImageSchema;
use crate::schemas::UpdateImageSchema;
use crate::text::dec_digits;
use crate::text::is_safe_path;
use crate::text::lemma_dec_digits_plain;
use crate::text::safe_path;
use crate::text::str_eq;
use crate::text::u64_to_dec;

verus! {

/// One metadata row: the id is the durable key, the name is the on-disk
/// file name, and the timestamps are supplied by the caller's clock.
#[derive(Debug)]
pub struct ImageModel {
    pub id: u64,
    pub name: String,
    pub created_at: u64,
    pub updated_at: u64,
}

/// The mathematical shape of a row.
pub struct RowView {
    pub id: u64,
    pub name: Seq<char>,
    pub created_at: u64,
    pub updated_at: u64,
}

impl View for ImageModel {
    type V = RowView;

    open spec fn view(&self) -> RowView {
        RowView {
            id: self.id,
            name: self.name@,
            created_at: self.created_at,
            updated_at: self.updated_at,
        }
    }
}

impl Clone for ImageModel {
    fn clone(&self) -> (r: Self)
        ensures
            r == *self,
    {
        ImageModel {
            id: self.id,
            name: self.name.clone(),
            created_at: self.created_at,
            updated_at: self.updated_at,
        }
    }
}

/// One file of the content directory.
#[derive(Debug)]
pub struct StoredFile {
    pub name: String,
    pub data: Vec<u8>,
}

/// No two files share a name.
pub open spec fn unique_file_names(files: Seq<StoredFile>) -> bool {
    forall|i: int, j: int| 0 <= i < j < files.len() ==> files[i].name@ != files[j].name@
}

/// The directory a file sequence denotes: a map from name to contents.
pub open spec fn files_view(files: Seq<StoredFile>) -> Map<Seq<char>, Seq<u8>>
    decreases files.len(),
{
    if files.len() == 0 {
        Map::empty()
    } else {
        files_view(files.drop_last()).insert(files.last().name@, files.last().data@)
    }
}

/// A name is in the directory map exactly when some file carries it.
pub proof fn lemma_files_view_contains(files: Seq<StoredFile>, n: Seq<char>)
    ensures
        files_view(files).dom().contains(n) <==> exists|i: int|
            0 <= i < files.len() && (#[trigger] files[i]).name@ == n,
    decreases files.len(),
{
    if files.len() > 0 {
        lemma_files_view_contains(files.drop_last(), n);
        if files.last().name@ == n {
            assert(files[files.len() - 1].name@ == n);
        } else if exists|i: int| 0 <= i < files.len() && (#[trigger] files[i]).name@ == n {
            let i = choose|i: int| 0 <= i < files.len() && (#[trigger] files[i]).name@ == n;
            assert(files.drop_last()[i].name@ == n);
        }
    }
}

/// Under unique names, the directory map holds each file's bytes under its
/// name.
pub proof fn lemma_files_view_at(files: Seq<StoredFile>, i: int)
    requires
        unique_file_names(files),
        0 <= i < files.len(),
    ensures
        files_view(files).dom().contains(files[i].name@),
        files_view(files)[files[i].name@] == files[i].data@,
    decreases files.len(),
{
    if i < files.len() - 1 {
        lemma_files_view_at(files.drop_last(), i);
        assert(files.drop_last()[i] == files[i]);
        assert(files[i].name@ != files.last().name@);
    }
}

/// Appending a file adds its entry to the directory map.
pub proof fn lemma_files_view_push(files: Seq<StoredFile>, f: StoredFile)
    ensures
        files_view(files.push(f)) == files_view(files).insert(f.name@, f.data@),
{
    assert(files.push(f).drop_last() =~= files);
    assert(files.push(f).last() == f);
}

/// Under unique names, removing the file at `k` removes its entry from the
/// directory map.
pub proof fn lemma_files_view_remove(files: Seq<StoredFile>, k: int)
    requires
        unique_file_names(files),
        0 <= k < files.len(),
    ensures
        files_view(files.remove(k)) == files_view(files).remove(files[k].name@),
    decreases files.len(),
{
    let u = files.remove(k);
    if k == files.len() - 1 {
        assert(u =~= files.drop_last());
        lemma_files_view_contains(files.drop_last(), files[k].name@);
        assert forall|i: int|
            !(0 <= i < files.drop_last().len() && (#[trigger] files.drop_last()[i]).name@
                == files[k].name@) by {
            if 0 <= i < files.drop_last().len() {
                assert(files[i].name@ != files[k].name@);
            }
        }
        assert(files_view(u) =~= files_view(files).remove(files[k].name@));
    } else {
        lemma_files_view_remove(files.drop_last(), k);
        assert(u.drop_last() =~= files.drop_last().remove(k));
        assert(u.last() == files.last());
        assert(files[k].name@ != files.last().name@);
        assert(files_view(u) =~= files_view(files).remove(files[k].name@));
    }
}

/// The staging name of an upload field: the field's name plus the fixed
/// extension.
pub open spec fn staged_name(field: Seq<char>) -> Seq<char> {
    field + ".webp"@
}

/// The durable name a committed image gets: its row id, rendered in
/// decimal, plus the fixed extension.
pub open spec fn committed_name(id: u64) -> Seq<char> {
    dec_digits(id as nat) + ".webp"@
}

proof fn lemma_ext_chars()
    ensures
        ".webp"@ =~= seq!['.', 'w', 'e', 'b', 'p'],
{
    reveal_strlit(".webp");
}

/// A safe field name stays safe with the extension appended.
pub proof fn lemma_staged_name_safe(field: Seq<char>)
    requires
        safe_path(field),
    ensures
        safe_path(staged_name(field)),
{
    lemma_ext_chars();
    reveal_strlit(".");
    reveal_strlit("..");
    let s = staged_name(field);
    assert forall|i: int| 0 <= i < s.len() implies s[i] != '/' && s[i] != '\\' by {
        if i >= field.len() {
            assert(s[i] == ".webp"@[i - field.len()]);
        }
    }
    assert(s.len() > 2);
    assert("."@.len() == 1 && ".."@.len() == 2);
}

/// A committed name is always a safe path: it is digits and the extension.
pub proof fn lemma_committed_name_safe(id: u64)
    ensures
        safe_path(committed_name(id)),
{
    lemma_dec_digits_plain(id as nat);
    lemma_ext_chars();
    reveal_strlit(".");
    reveal_strlit("..");
    let d = dec_digits(id as nat);
    let s = committed_name(id);
    assert forall|i: int| 0 <= i < s.len() implies s[i] != '/' && s[i] != '\\' by {
        if i < d.len() {
            assert(s[i] == d[i]);
        } else {
            assert(s[i] == ".webp"@[i - d.len()]);
        }
    }
    assert(s.len() > 2);
    assert("."@.len() == 1 && ".."@.len() == 2);
}

/// Builds the staging file name of an upload field.
pub fn staged_file_name(field: &str) -> (r: String)
    ensures
        r@ == staged_name(field@),
{
    field.to_owned().concat(".webp")
}

/// Builds the durable file name of the row with this id.
pub fn committed_file_name(id: u64) -> (r: String)
    ensures
        r@ == committed_name(id),
{
    u64_to_dec(id).concat(".webp")
}

/// The mathematical values of a row sequence, in order.
pub open spec fn rows_view(rows: Seq<ImageModel>) -> Seq<RowView> {
    rows.map_values(|r: ImageModel| r@)
}

/// Some row carries this id.
pub open spec fn has_row_id(rows: Seq<RowView>, id: u64) -> bool {
    exists|i: int| 0 <= i < rows.len() && (#[trigger] rows[i]).id == id
}

/// Some row carries this name.
pub open spec fn has_row_named(rows: Seq<RowView>, name: Seq<char>) -> bool {
    exists|i: int| 0 <= i < rows.len() && (#[trigger] rows[i]).name == name
}

/// The metadata table and the content directory, as the pipeline sees them.
pub struct ImageStore {
    pub rows: Vec<ImageModel>,
    pub files: Vec<StoredFile>,
    pub next_id: u64,
}

impl ImageStore {
    /// The rows in creation order, as mathematical values.
    pub open spec fn rows_v(&self) -> Seq<RowView> {
        rows_view(self.rows@)
    }

    /// The directory as a map from file name to contents.
    pub open spec fn files_v(&self) -> Map<Seq<char>, Seq<u8>> {
        files_view(self.files@)
    }

    /// Row ids unique and below the next to be issued, row names unique,
    /// file names unique.
    pub open spec fn wf(&self) -> bool {
        &&& forall|i: int, j: int|
            0 <= i < j < self.rows@.len() ==> self.rows@[i].id != self.rows@[j].id
        &&& forall|i: int, j: int|
            0 <= i < j < self.rows@.len() ==> self.rows@[i].name@ != self.rows@[j].name@
        &&& forall|i: int| 0 <= i < self.rows@.len() ==> (#[trigger] self.rows@[i]).id < self.next_id
        &&& unique_file_names(self.files@)
    }

    /// An empty store.
    pub fn new() -> (s: Self)
        ensures
            s.wf(),
            s.rows@.len() == 0,
            s.files@.len() == 0,
            s.next_id == 0,
    {
        ImageStore { rows: Vec::new(), files: Vec::new(), next_id: 0 }
    }

    /// Index of the file with this name, if any.
    fn find_file(&self, name: &str) -> (r: Option<usize>)
        ensures
            r matches Some(i) ==> i < self.files@.len() && self.files@[i as int].name@ == name@,
            r is None ==> forall|i: int|
                0 <= i < self.files@.len() ==> (#[trigger] self.files@[i]).name@ != name@,
    {
        let mut idx: usize = 0;
        while idx < self.files.len()
            invariant
                0 <= idx <= self.files@.len(),
                forall|i: int| 0 <= i < idx ==> (#[trigger] self.files@[i]).name@ != name@,
            decreases self.files@.len() - idx,
        {
            if str_eq(self.files[idx].name.as_str(), name) {
                return Some(idx);
            }
            idx += 1;
        }
        None
    }

    /// Index of the row with this id, if any.
    fn find_row_by_id(&self, id: u64) -> (r: Option<usize>)
        ensures
            r matches Some(i) ==> i < self.rows@.len() && self.rows@[i as int].id == id,
            r is None ==> !has_row_id(self.rows_v(), id),
    {
        let mut idx: usize = 0;
        while idx < self.rows.len()
            invariant
                0 <= idx <= self.rows@.len(),
                forall|i: int| 0 <= i < idx ==> (#[trigger] self.rows@[i]).id != id,
            decreases self.rows@.len() - idx,
        {
            if self.rows[idx].id == id {
                return Some(idx);
            }
            idx += 1;
        }
        assert forall|i: int| 0 <= i < self.rows_v().len() implies (#[trigger] self.rows_v()[i]).id
            != id by {
            assert(self.rows_v()[i] == self.rows@[i]@);
        }
        None
    }

    /// Index of the row with this name, if any.
    fn find_row_by_name(&self, name: &str) -> (r: Option<usize>)
        ensures
            r matches Some(i) ==> i < self.rows@.len() && self.rows@[i as int].name@ == name@,
            r is None ==> !has_row_named(self.rows_v(), name@),
    {
        let mut idx: usize = 0;
        while idx < self.rows.len()
            invariant
                0 <= idx <= self.rows@.len(),
                forall|i: int| 0 <= i < idx ==> (#[trigger] self.rows@[i]).name@ != name@,
            decreases self.rows@.len() - idx,
        {
            if str_eq(self.rows[idx].name.as_str(), name) {
                return Some(idx);
            }
            idx += 1;
        }
        assert forall|i: int| 0 <= i < self.rows_v().len() implies (#[trigger] self.rows_v()[i]).name
            != name@ by {
            assert(self.rows_v()[i] == self.rows@[i]@);
        }
        None
    }

    /// Removes and returns the file with this name, if present: the
    /// directory map loses exactly that entry, and nothing else changes.
    fn take_file_named(&mut self, name: &str) -> (r: Option<StoredFile>)
        requires
            unique_file_names(old(self).files@),
        ensures
            unique_file_names(final(self).files@),
            files_view(final(self).files@) == files_view(old(self).files@).remove(name@),
            forall|i: int|
                0 <= i < final(self).files@.len() ==> (#[trigger] final(self).files@[i]).name@
                    != name@,
            final(self).rows@ == old(self).rows@,
            final(self).next_id == old(self).next_id,
            r matches Some(f) ==> f.name@ == name@ && files_view(old(self).files@).dom().contains(
                name@,
            ) && f.data@ == files_view(old(self).files@)[name@],
            r is None ==> !files_view(old(self).files@).dom().contains(name@) && final(self).files@
                == old(self).files@,
    {
        let ghost oldfiles = self.files@;
        match self.find_file(name) {
            None => {
                proof {
                    lemma_files_view_contains(oldfiles, name@);
                    assert(files_view(oldfiles).remove(name@) =~= files_view(oldfiles));
                }
                None
            },
            Some(k) => {
                let f = self.files.remove(k);
                proof {
                    lemma_files_view_remove(oldfiles, k as int);
                    lemma_files_view_at(oldfiles, k as int);
                    assert(oldfiles[k as int].name@ == name@);
                    assert forall|i: int|
                        0 <= i < self.files@.len() implies (#[trigger] self.files@[i]).name@
                        != name@ by {
                        if i < k {
                            assert(self.files@[i] == oldfiles[i]);
                        } else {
                            assert(self.files@[i] == oldfiles[i + 1]);
                        }
                    }
                    assert forall|i: int, j: int|
                        0 <= i < j < self.files@.len() implies self.files@[i].name@
                        != self.files@[j].name@ by {
                        let oi: int = if i < k { i } else { i + 1 };
                        let oj: int = if j < k { j } else { j + 1 };
                        assert(self.files@[i] == oldfiles[oi]);
                        assert(self.files@[j] == oldfiles[oj]);
                    }
                }
                Some(f)
            },
        }
    }

    /// Stages an upload: rejects a field name that is not a plain file name,
    /// then writes the bytes under the staging name — field name plus the
    /// fixed extension — replacing any earlier staging under that name.
    /// Returns the staged name, as the upload response reports it.
    pub fn upload(&mut self, field: &str, data: Vec<u8>) -> (r: Result<CreateImageSchema, ApiError>)
        requires
            old(self).wf(),
        ensures
            final(self).wf(),
            r is Ok <==> safe_path(field@),
            r matches Err(e) ==> e == ApiError::Validation && *final(self) == *old(self),
            r matches Ok(sf) ==> ({
                &&& sf.name@ == staged_name(field@)
                &&& safe_path(sf.name@)
                &&& final(self).files_v() == old(self).files_v().insert(
                    staged_name(field@),
                    data@,
                )
                &&& final(self).rows@ == old(self).rows@
                &&& final(self).next_id == old(self).next_id
            }),
    {
        if !is_safe_path(field) {
            return Err(ApiError::Validation);
        }
        proof {
            lemma_staged_name_safe(field@);
        }
        let staged = staged_file_name(field);
        let rname = staged.clone();
        self.take_file_named(staged.as_str());
        let ghost midfiles = self.files@;
        self.files.push(StoredFile { name: staged, data });
        proof {
            let f = self.files@.last();
            assert(self.files@ == midfiles.push(f));
            lemma_files_view_push(midfiles, f);
            assert(self.files_v() =~= old(self).files_v().insert(staged_name(field@), data@));
            assert forall|i: int, j: int|
                0 <= i < j < self.files@.len() implies self.files@[i].name@
                != self.files@[j].name@ by {
                if j < self.files@.len() - 1 {
                    assert(self.files@[i] == midfiles[i] && self.files@[j] == midfiles[j]);
                } else {
                    assert(self.files@[i] == midfiles[i]);
                }
            }
        }
        Ok(CreateImageSchema { name: rname })
    }

    /// Commits a staged file: issues the next row id, renames the staged
    /// file to that id plus the fixed extension, and appends the row with
    /// that name — one unit, so a failed step never leaves a row pointing at
    /// a missing file. Success is owed exactly when the staged file exists,
    /// no row already carries the staged or the committed name, and an id
    /// can still be issued.
    pub fn commit(&mut self, staged: &str, now: u64) -> (r: Result<ImageModel, ApiError>)
        requires
            old(self).wf(),
        ensures
            final(self).wf(),
            r is Ok <==> ({
                &&& old(self).files_v().dom().contains(staged@)
                &&& !has_row_named(old(self).rows_v(), staged@)
                &&& old(self).next_id < u64::MAX
                &&& !has_row_named(old(self).rows_v(), committed_name(old(self).next_id))
            }),
            r is Err ==> *final(self) == *old(self),
            !old(self).files_v().dom().contains(staged@) ==> r == Err::<ImageModel, ApiError>(
                ApiError::NotFound,
            ),
            old(self).files_v().dom().contains(staged@) && has_row_named(
                old(self).rows_v(),
                staged@,
            ) ==> r == Err::<ImageModel, ApiError>(ApiError::Conflict),
            old(self).files_v().dom().contains(staged@) && !has_row_named(
                old(self).rows_v(),
                staged@,
            ) && old(self).next_id == u64::MAX ==> r == Err::<ImageModel, ApiError>(
                ApiError::Internal,
            ),
            old(self).files_v().dom().contains(staged@) && !has_row_named(
                old(self).rows_v(),
                staged@,
            ) && old(self).next_id < u64::MAX && has_row_named(
                old(self).rows_v(),
                committed_name(old(self).next_id),
            ) ==> r == Err::<ImageModel, ApiError>(ApiError::Conflict),
            r matches Ok(m) ==> ({
                let id = old(self).next_id;
                &&& m@ == (RowView {
                    id,
                    name: committed_name(id),
                    created_at: now,
                    updated_at: now,
                })
                &&& safe_path(m@.name)
                &&& final(self).rows_v() == old(self).rows_v().push(m@)
                &&& final(self).files_v() == old(self).files_v().remove(staged@).insert(
                    committed_name(id),
                    old(self).files_v()[staged@],
                )
                &&& final(self).next_id == id + 1
            }),
    {
        let ghost oldfiles = self.files@;
        proof {
            lemma_files_view_contains(oldfiles, staged@);
        }
        if self.find_file(staged).is_none() {
            return Err(ApiError::NotFound);
        }
        match self.find_row_by_name(staged) {
            Some(j) => {
                proof {
                    assert(self.rows_v()[j as int].name == staged@);
                }
                return Err(ApiError::Conflict);
            },
            None => {},
        }
        if self.next_id == u64::MAX {
            return Err(ApiError::Internal);
        }
        let id = self.next_id;
        let fname = committed_file_name(id);
        match self.find_row_by_name(fname.as_str()) {
            Some(j) => {
                proof {
                    assert(self.rows_v()[j as int].name == committed_name(id));
                }
                return Err(ApiError::Conflict);
            },
            None => {},
        }
        let staged_file = match self.take_file_named(staged) {
            Some(f) => f,
            None => {
                proof {
                    assert(false);
                }
                return Err(ApiError::Internal);
            },
        };
        self.take_file_named(fname.as_str());
        let ghost midfiles = self.files@;
        self.files.push(StoredFile { name: fname.clone(), data: staged_file.data });
        proof {
            let f = self.files@.last();
            assert(self.files@ == midfiles.push(f));
            lemma_files_view_push(midfiles, f);
            assert(self.files_v() =~= old(self).files_v().remove(staged@).insert(
                committed_name(id),
                old(self).files_v()[staged@],
            ));
            assert forall|i: int, j: int|
                0 <= i < j < self.files@.len() implies self.files@[i].name@
                != self.files@[j].name@ by {
                if j < self.files@.len() - 1 {
                    assert(self.files@[i] == midfiles[i] && self.files@[j] == midfiles[j]);
                } else {
                    assert(self.files@[i] == midfiles[i]);
                }
            }
        }
        proof {
            lemma_committed_name_safe(id);
        }
        let row = ImageModel { id, name: fname, created_at: now, updated_at: now };
        let result = row.clone();
        let ghost oldrows = self.rows@;
        self.rows.push(row);
        self.next_id = id + 1;
        proof {
            assert(self.rows_v() =~= rows_view(oldrows).push(self.rows@.last()@));
            assert forall|i: int, j: int|
                0 <= i < j < self.rows@.len() implies self.rows@[i].id != self.rows@[j].id by {
                if j < self.rows@.len() - 1 {
                    assert(self.rows@[i] == oldrows[i] && self.rows@[j] == oldrows[j]);
                } else {
                    assert(self.rows@[i] == oldrows[i]);
                }
            }
            assert forall|i: int, j: int|
                0 <= i < j < self.rows@.len() implies self.rows@[i].name@
                != self.rows@[j].name@ by {
                if j < self.rows@.len() - 1 {
                    assert(self.rows@[i] == oldrows[i] && self.rows@[j] == oldrows[j]);
                } else {
                    assert(self.rows@[i] == oldrows[i]);
                    assert(!has_row_named(old(self).rows_v(), committed_name(id)));
                    assert(old(self).rows_v()[i].name == oldrows[i].name@);
                }
            }
        }
        Ok(result)
    }

    /// Fetches the row with this id.
    pub fn get(&self, id: u64) -> (r: Result<ImageModel, ApiError>)
        requires
            self.wf(),
        ensures
            r is Ok <==> has_row_id(self.rows_v(), id),
            r matches Ok(m) ==> exists|i: int|
                0 <= i < self.rows_v().len() && (#[trigger] self.rows_v()[i]).id == id && m@
                    == self.rows_v()[i],
            r matches Err(e) ==> e == ApiError::NotFound,
    {
        match self.find_row_by_id(id) {
            None => Err(ApiError::NotFound),
            Some(i) => {
                let m = self.rows[i].clone();
                proof {
                    assert(self.rows_v()[i as int] == self.rows@[i as int]@);
                }
                Ok(m)
            },
        }
    }

    /// One page of the rows in creation order, with the total count.
    /// Pagination follows the shared window rule: page defaults to 1 (a page
    /// of 0 is clamped to 1), limit defaults to 10, and the window is cut to
    /// the sequence — so an absent page and page 1 return the same items.
    #[verifier::loop_isolation(false)]
    pub fn list(&self, page: Option<usize>, limit: Option<usize>) -> (r: (usize, Vec<ImageModel>))
        requires
            self.wf(),
        ensures
            r.0 == self.rows@.len(),
            rows_view(r.1@) == self.rows_v().subrange(
                spec_page_start(self.rows@.len() as int, page, limit),
                spec_page_end(self.rows@.len() as int, page, limit),
            ),
    {
        let count = self.rows.len();
        let (start, end) = page_window(count, page, limit);
        let mut items: Vec<ImageModel> = Vec::new();
        let mut i: usize = start;
        proof {
            assert(rows_view(items@) =~= self.rows_v().subrange(start as int, start as int));
        }
        while i < end
            invariant
                start <= i <= end,
                end <= self.rows@.len(),
                rows_view(items@) == self.rows_v().subrange(start as int, i as int),
            decreases end - i,
        {
            items.push(self.rows[i].clone());
            proof {
                assert(rows_view(items@) =~= self.rows_v().subrange(start as int, i + 1));
            }
            i += 1;
        }
        (count, items)
    }

    /// Deletes the row with this id and, best-effort, the file under the
    /// row's name: a missing file never blocks the row. An id without a row
    /// reports `NotFound` — so after a successful delete, a second delete of
    /// the same id reports `NotFound`: delete is idempotent in effect.
    pub fn delete(&mut self, id: u64) -> (r: Result<(), ApiError>)
        requires
            old(self).wf(),
        ensures
            final(self).wf(),
            r is Ok <==> has_row_id(old(self).rows_v(), id),
            r matches Err(e) ==> e == ApiError::NotFound && *final(self) == *old(self),
            r is Ok ==> exists|k: int|
                0 <= k < old(self).rows_v().len() && (#[trigger] old(self).rows_v()[k]).id == id
                    && final(self).rows@ == old(self).rows@.remove(k) && final(self).files_v()
                    == old(self).files_v().remove(old(self).rows_v()[k].name),
            r is Ok ==> !has_row_id(final(self).rows_v(), id),
            final(self).next_id == old(self).next_id,
    {
        let k = match self.find_row_by_id(id) {
            None => {
                return Err(ApiError::NotFound);
            },
            Some(k) => k,
        };
        let ghost oldrows = self.rows@;
        let row = self.rows.remove(k);
        proof {
            assert(oldrows[k as int].id == id);
            assert(old(self).rows_v()[k as int] == oldrows[k as int]@);
            assert(has_row_id(old(self).rows_v(), id));
            assert forall|i: int|
                0 <= i < self.rows@.len() implies (#[trigger] self.rows@[i]).id != id by {
                if i < k {
                    assert(self.rows@[i] == oldrows[i]);
                } else {
                    assert(self.rows@[i] == oldrows[i + 1]);
                }
            }
            assert forall|i: int, j: int|
                0 <= i < j < self.rows@.len() implies self.rows@[i].id != self.rows@[j].id
                && self.rows@[i].name@ != self.rows@[j].name@ by {
                let oi: int = if i < k { i } else { i + 1 };
                let oj: int = if j < k { j } else { j + 1 };
                assert(self.rows@[i] == oldrows[oi]);
                assert(self.rows@[j] == oldrows[oj]);
            }
            assert forall|i: int|
                0 <= i < self.rows_v().len() implies (#[trigger] self.rows_v()[i]).id != id by {
                assert(self.rows_v()[i] == self.rows@[i]@);
            }
        }
        self.take_file_named(row.name.as_str());
        proof {
            assert(row == oldrows[k as int]);
            assert(old(self).rows_v()[k as int].name == row.name@);
            assert(self.rows@ == oldrows.remove(k as int));
            assert(self.files_v() == old(self).files_v().remove(
                old(self).rows_v()[k as int].name,
            ));
        }
        Ok(())
    }

    /// Serves a file by its literal path segment: a path that is not a plain
    /// file name — anything that could resolve outside the content
    /// directory — is rejected, and the named file must exist.
    pub fn show(&self, path: &str) -> (r: Result<Vec<u8>, ApiError>)
        requires
            self.wf(),
        ensures
            r is Ok <==> safe_path(path@) && self.files_v().dom().contains(path@),
            r matches Ok(d) ==> d@ == self.files_v()[path@],
            !safe_path(path@) ==> r == Err::<Vec<u8>, ApiError>(ApiError::Validation),
            safe_path(path@) && !self.files_v().dom().contains(path@) ==> r == Err::<
                Vec<u8>,
                ApiError,
            >(ApiError::NotFound),
    {
        if !is_safe_path(path) {
            return Err(ApiError::Validation);
        }
        proof {
            lemma_files_view_contains(self.files@, path@);
        }
        match self.find_file(path) {
            None => Err(ApiError::NotFound),
            Some(k) => {
                proof {
                    lemma_files_view_at(self.files@, k as int);
                }
                let file = &self.files[k];
                let mut out: Vec<u8> = Vec::new();
                let mut i: usize = 0;
                while i < file.data.len()
                    invariant
                        0 <= i <= file.data@.len(),
                        out@ == file.data@.subrange(0, i as int),
                    decreases file.data@.len() - i,
                {
                    out.push(file.data[i]);
                    proof {
                        assert(out@ =~= file.data@.subrange(0, i + 1 as int));
                    }
                    i += 1;
                }
                proof {
                    assert(file.data@.subrange(0, file.data@.len() as int) =~= file.data@);
                }
                Ok(out)
            },
        }
    }
}

/// The index of the row carrying this id; meaningful under `has_row_id`,
/// and unique when row ids are unique.
pub open spec fn the_row_with_id(rows: Seq<RowView>, id: u64) -> int {
    choose|i: int| 0 <= i < rows.len() && (#[trigger] rows[i]).id == id
}

/// The name a partial update leaves on a row.
pub open spec fn updated_row_name(update: Option<String>, current: Seq<char>) -> Seq<char> {
    match update {
        Some(n) => n@,
        None => current,
    }
}

impl ImageStore {
    /// Applies a partial update to the row with this id: a supplied name
    /// replaces the stored one — and the row's file, if it exists, moves
    /// with it — while an absent name keeps everything; `updated_at` is
    /// refreshed either way. A name another row already carries is a
    /// conflict, and an id without a row is `NotFound`.
    pub fn update_name(&mut self, id: u64, update: UpdateImageSchema, now: u64) -> (r: Result<
        ImageModel,
        ApiError,
    >)
        requires
            old(self).wf(),
        ensures
            final(self).wf(),
            !has_row_id(old(self).rows_v(), id) ==> r == Err::<ImageModel, ApiError>(
                ApiError::NotFound,
            ),
            r matches Err(e) ==> (e == ApiError::NotFound || e == ApiError::Conflict) && *final(self)
                == *old(self),
            has_row_id(old(self).rows_v(), id) ==> ({
                let k = the_row_with_id(old(self).rows_v(), id);
                let oldrow = old(self).rows_v()[k];
                let newname = updated_row_name(update.name, oldrow.name);
                &&& (r is Ok <==> !(exists|j: int|
                    0 <= j < old(self).rows_v().len() && j != k && (#[trigger] old(
                        self,
                    ).rows_v()[j]).name == newname))
                &&& (r matches Ok(m) ==> ({
                    &&& m@ == (RowView {
                        id,
                        name: newname,
                        created_at: oldrow.created_at,
                        updated_at: now,
                    })
                    &&& final(self).rows_v() == old(self).rows_v().update(k, m@)
                    &&& (old(self).files_v().dom().contains(oldrow.name) ==> final(self).files_v()
                        == old(self).files_v().remove(oldrow.name).insert(
                        newname,
                        old(self).files_v()[oldrow.name],
                    ))
                    &&& (!old(self).files_v().dom().contains(oldrow.name) ==> final(self).files_v()
                        == old(self).files_v())
                    &&& final(self).next_id == old(self).next_id
                }))
            }),
    {
        let k = match self.find_row_by_id(id) {
            None => {
                return Err(ApiError::NotFound);
            },
            Some(k) => k,
        };
        proof {
            assert(self.rows_v()[k as int] == self.rows@[k as int]@);
            assert(has_row_id(self.rows_v(), id));
            let kk = the_row_with_id(self.rows_v(), id);
            if kk != k as int {
                assert(self.rows@[kk].id == self.rows@[k as int].id);
                assert(false);
            }
        }
        let oldname = self.rows[k].name.clone();
        let newname: String = match update.name {
            Some(n) => n,
            None => oldname.clone(),
        };
        match self.find_row_by_name(newname.as_str()) {
            Some(j) => {
                if j != k {
                    proof {
                        assert(self.rows_v()[j as int].name == newname@);
                    }
                    return Err(ApiError::Conflict);
                }
            },
            None => {},
        }
        proof {
            assert forall|j: int|
                !(0 <= j < self.rows_v().len() && j != k as int && (#[trigger] self.rows_v()[j]).name
                    == newname@) by {
                if 0 <= j < self.rows_v().len() && j != k as int {
                    assert(self.rows_v()[j] == self.rows@[j]@);
                    if self.rows@[j].name@ == newname@ {
                        assert(has_row_named(self.rows_v(), newname@));
                    }
                }
            }
        }
        let created = self.rows[k].created_at;
        let row = ImageModel { id, name: newname.clone(), created_at: created, updated_at: now };
        let result = row.clone();
        let ghost oldrows = self.rows@;
        self.rows.remove(k);
        self.rows.insert(k, row);
        proof {
            assert(self.rows@ =~= oldrows.update(k as int, self.rows@[k as int]));
            assert(self.rows_v() =~= rows_view(oldrows).update(k as int, self.rows@[k as int]@));
            assert forall|i: int, j: int|
                0 <= i < j < self.rows@.len() implies self.rows@[i].id != self.rows@[j].id
                && self.rows@[i].name@ != self.rows@[j].name@ by {
                if i != k as int && j != k as int {
                    assert(self.rows@[i] == oldrows[i] && self.rows@[j] == oldrows[j]);
                } else if i == k as int {
                    assert(self.rows@[j] == oldrows[j]);
                    assert(rows_view(oldrows)[j] == oldrows[j]@);
                } else {
                    assert(self.rows@[i] == oldrows[i]);
                    assert(rows_view(oldrows)[i] == oldrows[i]@);
                }
            }
        }
        match self.take_file_named(oldname.as_str()) {
            Some(f) => {
                self.take_file_named(newname.as_str());
                let ghost midfiles = self.files@;
                self.files.push(StoredFile { name: newname, data: f.data });
                proof {
                    let pushed = self.files@.last();
                    assert(self.files@ == midfiles.push(pushed));
                    lemma_files_view_push(midfiles, pushed);
                    assert(self.files_v() =~= old(self).files_v().remove(oldname@).insert(
                        pushed.name@,
                        old(self).files_v()[oldname@],
                    ));
                    assert forall|i: int, j: int|
                        0 <= i < j < self.files@.len() implies self.files@[i].name@
                        != self.files@[j].name@ by {
                        if j < self.files@.len() - 1 {
                            assert(self.files@[i] == midfiles[i] && self.files@[j] == midfiles[j]);
                        } else {
                            assert(self.files@[i] == midfiles[i]);
                        }
                    }
                }
            },
            None => {
                proof {
                    assert(self.files_v() =~= old(self).files_v());
                }
            },
        }
        Ok(result)
    }
}

/// The reconciliation report: which orphaned files were adopted, and which
/// rows dangle without a file. Dangling rows are surfaced, never deleted.
#[derive(Debug)]
pub struct ReconcileReport {
    pub adopted: Vec<String>,
    pub dangling: Vec<String>,
}

impl ImageStore {
    /// Scans the content directory and appends a row, named like the file
    /// and stamped with the caller's clock, for every file no row covers;
    /// rows without files are only reported. Afterwards every file is
    /// covered, and a covered file is never adopted — so a second run
    /// against an unchanged store appends zero rows.
    pub fn reconcile(&mut self, now: u64) -> (r: ReconcileReport)
        requires
            old(self).wf(),
            old(self).next_id as int + old(self).files@.len() as int <= u64::MAX as int,
        ensures
            final(self).wf(),
            final(self).files@ == old(self).files@,
            old(self).rows@.len() <= final(self).rows@.len(),
            final(self).rows@.subrange(0, old(self).rows@.len() as int) == old(self).rows@,
            forall|i: int|
                0 <= i < final(self).files@.len() ==> has_row_named(
                    final(self).rows_v(),
                    (#[trigger] final(self).files@[i]).name@,
                ),
            forall|j: int|
                old(self).rows@.len() <= j < final(self).rows_v().len() ==> ({
                    let rv = #[trigger] final(self).rows_v()[j];
                    &&& rv.created_at == now
                    &&& rv.updated_at == now
                    &&& old(self).files_v().dom().contains(rv.name)
                    &&& !has_row_named(old(self).rows_v(), rv.name)
                }),
            (forall|i: int|
                0 <= i < old(self).files@.len() ==> has_row_named(
                    old(self).rows_v(),
                    (#[trigger] old(self).files@[i]).name@,
                )) ==> final(self).rows@ == old(self).rows@ && final(self).next_id == old(
                self,
            ).next_id,
            r.adopted@.len() == final(self).rows@.len() - old(self).rows@.len(),
            forall|j: int|
                0 <= j < r.adopted@.len() ==> (#[trigger] r.adopted@[j])@ == final(self).rows_v()[
                    old(self).rows@.len() + j].name,
            forall|j: int|
                0 <= j < r.dangling@.len() ==> has_row_named(
                    final(self).rows_v(),
                    (#[trigger] r.dangling@[j])@,
                ) && !final(self).files_v().dom().contains(r.dangling@[j]@),
            forall|i: int|
                0 <= i < final(self).rows@.len() && !final(self).files_v().dom().contains(
                    (#[trigger] final(self).rows@[i]).name@,
                ) ==> exists|j: int|
                    0 <= j < r.dangling@.len() && (#[trigger] r.dangling@[j])@ == final(self).rows@[
                        i].name@,
    {
        let ghost oldrows = self.rows@;
        let ghost oldfiles = self.files@;
        let ghost oldnext = self.next_id;
        let mut adopted: Vec<String> = Vec::new();
        let nfiles = self.files.len();
        let mut i: usize = 0;
        while i < nfiles
            invariant
                self.wf(),
                0 <= i <= nfiles,
                nfiles == self.files@.len(),
                self.files@ == oldfiles,
                old(self).wf(),
                oldnext as int + oldfiles.len() as int <= u64::MAX as int,
                oldrows == old(self).rows@,
                oldfiles == old(self).files@,
                oldnext == old(self).next_id,
                oldrows.len() <= self.rows@.len(),
                self.rows@.subrange(0, oldrows.len() as int) == oldrows,
                self.rows@.len() - oldrows.len() <= i,
                self.next_id as int == oldnext as int + self.rows@.len() - oldrows.len(),
                forall|fi: int|
                    0 <= fi < i ==> has_row_named(
                        self.rows_v(),
                        (#[trigger] self.files@[fi]).name@,
                    ),
                forall|j: int|
                    oldrows.len() <= j < self.rows_v().len() ==> ({
                        let rv = #[trigger] self.rows_v()[j];
                        &&& rv.created_at == now
                        &&& rv.updated_at == now
                        &&& files_view(oldfiles).dom().contains(rv.name)
                        &&& !has_row_named(rows_view(oldrows), rv.name)
                    }),
                (forall|fi: int|
                    0 <= fi < oldfiles.len() ==> has_row_named(
                        rows_view(oldrows),
                        (#[trigger] oldfiles[fi]).name@,
                    )) ==> self.rows@ == oldrows && self.next_id == oldnext,
                adopted@.len() == self.rows@.len() - oldrows.len(),
                forall|j: int|
                    0 <= j < adopted@.len() ==> (#[trigger] adopted@[j])@ == self.rows_v()[oldrows.len() + j].name,
            decreases nfiles - i,
        {
            let name = self.files[i].name.clone();
            match self.find_row_by_name(name.as_str()) {
                Some(j) => {
                    proof {
                        assert(self.rows_v()[j as int].name == name@);
                        assert(has_row_named(self.rows_v(), self.files@[i as int].name@));
                    }
                },
                None => {
                    proof {
                        lemma_files_view_contains(oldfiles, name@);
                        assert forall|w: int|
                            !(0 <= w < rows_view(oldrows).len() && (#[trigger] rows_view(
                                oldrows,
                            )[w]).name == name@) by {
                            if 0 <= w < oldrows.len() {
                                assert(rows_view(oldrows)[w] == oldrows[w]@);
                                assert(self.rows@[w] == oldrows[w]);
                                assert(self.rows_v()[w] == self.rows@[w]@);
                                if oldrows[w].name@ == name@ {
                                    assert(has_row_named(self.rows_v(), name@));
                                }
                            }
                        }
                        if forall|fi: int|
                            0 <= fi < oldfiles.len() ==> has_row_named(
                                rows_view(oldrows),
                                (#[trigger] oldfiles[fi]).name@,
                            ) {
                            assert(has_row_named(rows_view(oldrows), oldfiles[i as int].name@));
                            assert(false);
                        }
                    }
                    let ghost prevrows = self.rows@;
                    let row = ImageModel {
                        id: self.next_id,
                        name: name.clone(),
                        created_at: now,
                        updated_at: now,
                    };
                    self.rows.push(row);
                    adopted.push(name);
                    self.next_id = self.next_id + 1;
                    proof {
                        assert(self.rows_v() =~= rows_view(prevrows).push(self.rows@.last()@));
                        assert(self.rows@.subrange(0, oldrows.len() as int) =~= prevrows.subrange(
                            0,
                            oldrows.len() as int,
                        ));
                        assert forall|a: int, b: int|
                            0 <= a < b < self.rows@.len() implies self.rows@[a].id
                            != self.rows@[b].id && self.rows@[a].name@ != self.rows@[b].name@ by {
                            if b < self.rows@.len() - 1 {
                                assert(self.rows@[a] == prevrows[a] && self.rows@[b] == prevrows[b]);
                            } else {
                                assert(self.rows@[a] == prevrows[a]);
                                assert(rows_view(prevrows)[a] == prevrows[a]@);
                            }
                        }
                        assert forall|fi: int|
                            0 <= fi < i + 1 implies has_row_named(
                            self.rows_v(),
                            (#[trigger] self.files@[fi]).name@,
                        ) by {
                            if fi < i {
                                let w = choose|w: int|
                                    0 <= w < rows_view(prevrows).len() && (#[trigger] rows_view(
                                        prevrows,
                                    )[w]).name == self.files@[fi].name@;
                                assert(self.rows_v()[w] == rows_view(prevrows)[w]);
                            } else {
                                assert(self.rows_v().last().name == name@);
                            }
                        }
                    }
                },
            }
            i += 1;
        }
        let mut dangling: Vec<String> = Vec::new();
        let nrows = self.rows.len();
        let ghost donerows = self.rows@;
        let ghost donenext = self.next_id;
        let mut j: usize = 0;
        while j < nrows
            invariant
                0 <= j <= nrows,
                nrows == self.rows@.len(),
                self.rows@ == donerows,
                self.files@ == oldfiles,
                self.next_id == donenext,
                self.wf(),
                forall|d: int|
                    0 <= d < dangling@.len() ==> has_row_named(
                        self.rows_v(),
                        (#[trigger] dangling@[d])@,
                    ) && !files_view(oldfiles).dom().contains(dangling@[d]@),
                forall|ri: int|
                    0 <= ri < j && !files_view(oldfiles).dom().contains(
                        (#[trigger] self.rows@[ri]).name@,
                    ) ==> exists|d: int|
                        0 <= d < dangling@.len() && (#[trigger] dangling@[d])@
                            == self.rows@[ri].name@,
            decreases nrows - j,
        {
            proof {
                lemma_files_view_contains(oldfiles, self.rows@[j as int].name@);
            }
            let ghost prevd = dangling@;
            match self.find_file(self.rows[j].name.as_str()) {
                Some(_) => {},
                None => {
                    proof {
                        assert(self.rows_v()[j as int].name == self.rows@[j as int].name@);
                    }
                    dangling.push(self.rows[j].name.clone());
                },
            }
            proof {
                assert forall|ri: int|
                    0 <= ri < j + 1 && !files_view(oldfiles).dom().contains(
                        (#[trigger] self.rows@[ri]).name@,
                    ) implies exists|d: int|
                    0 <= d < dangling@.len() && (#[trigger] dangling@[d])@
                        == self.rows@[ri].name@ by {
                    if ri < j {
                        let d = choose|d: int|
                            0 <= d < prevd.len() && (#[trigger] prevd[d])@ == self.rows@[ri].name@;
                        assert(dangling@[d] == prevd[d]);
                    } else {
                        assert(dangling@[dangling@.len() - 1] == prevd.push(
                            dangling@.last(),
                        ).last());
                        assert(dangling@[dangling@.len() - 1]@ == self.rows@[j as int].name@);
                    }
                }
            }
            j += 1;
        }
        let ghost gd = dangling@;
        let report = ReconcileReport { adopted, dangling };
        proof {
            assert(report.dangling@ == gd);
            assert forall|i: int|
                0 <= i < self.rows@.len() && !self.files_v().dom().contains(
                    (#[trigger] self.rows@[i]).name@,
                ) implies exists|d: int|
                0 <= d < report.dangling@.len() && (#[trigger] report.dangling@[d])@
                    == self.rows@[i].name@ by {
                let d = choose|d: int|
                    0 <= d < gd.len() && (#[trigger] gd[d])@ == self.rows@[i].name@;
                assert(report.dangling@[d] == gd[d]);
            }
        }
        report
    }
}

/// Law: delete is idempotent in effect — removing the row that carries an
/// id leaves no row with that id, so a second delete of the same id finds
/// nothing and reports `NotFound`.
pub proof fn lemma_delete_idempotent(rows: Seq<RowView>, k: int, id: u64)
    requires
        forall|i: int, j: int| 0 <= i < j < rows.len() ==> rows[i].id != rows[j].id,
        0 <= k < rows.len(),
        rows[k].id == id,
    ensures
        !has_row_id(rows.remove(k), id),
{
    assert forall|i: int|
        0 <= i < rows.remove(k).len() implies (#[trigger] rows.remove(k)[i]).id != id by {
        if i < k {
            assert(rows.remove(k)[i] == rows[i]);
        } else {
            assert(rows.remove(k)[i] == rows[i + 1]);
        }
    }
}

/// Law: upload, then commit, then show round-trips the bytes exactly.
/// After `upload` the staged bytes sit under the staged name; a successful
/// `commit` of that name moves exactly those bytes under the committed name;
/// the committed name passes the path check of `show`, and looking it up
/// yields the uploaded bytes unchanged.
pub proof fn lemma_upload_commit_show_roundtrip(
    files0: Map<Seq<char>, Seq<u8>>,
    staged: Seq<char>,
    data: Seq<u8>,
    id: u64,
)
    ensures
        ({
            let files1 = files0.insert(staged, data);
            let files2 = files1.remove(staged).insert(committed_name(id), files1[staged]);
            &&& files2.dom().contains(committed_name(id))
            &&& files2[committed_name(id)] == data
            &&& safe_path(committed_name(id))
        }),
{
    lemma_committed_name_safe(id);
}

} // verus!
