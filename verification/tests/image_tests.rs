use portfolio_core::errors::ApiError;
use portfolio_core::images::{
    committed_file_name, staged_file_name, ImageModel, ImageStore, StoredFile,
};
use portfolio_core::schemas::UpdateImageSchema;

fn row(id: u64, name: &str, at: u64) -> ImageModel {
    ImageModel { id, name: name.to_string(), created_at: at, updated_at: at }
}

fn file(name: &str, data: &[u8]) -> StoredFile {
    StoredFile { name: name.to_string(), data: data.to_vec() }
}

#[test]
fn upload_commit_show_round_trips_the_bytes() {
    let mut store = ImageStore::new();
    let bytes = vec![0x52u8, 0x49, 0x46, 0x46, 0x00, 0x01];
    let staged = store.upload("file", bytes.clone()).expect("upload");
    assert_eq!(staged.name, "file.webp");
    let committed = store.commit("file.webp", 100).expect("commit");
    assert_eq!(committed.name, "0.webp");
    assert_eq!(committed.id, 0);
    assert_eq!(committed.created_at, 100);
    let served = store.show("0.webp").expect("show");
    assert_eq!(served, bytes);
    // The staged name no longer resolves.
    assert_eq!(store.show("file.webp"), Err(ApiError::NotFound));
}

#[test]
fn upload_rejects_a_field_name_that_escapes_the_directory() {
    let mut store = ImageStore::new();
    let err = store.upload("../evil", vec![1]).expect_err("traversal field");
    assert_eq!(err, ApiError::Validation);
    assert_eq!(store.upload("a/b", vec![1]).unwrap_err(), ApiError::Validation);
    assert!(store.upload("..", vec![1]).is_err());
}

#[test]
fn upload_overwrites_an_earlier_staging_with_the_same_name() {
    let mut store = ImageStore::new();
    store.upload("file", vec![1, 2, 3]).expect("first upload");
    store.upload("file", vec![9, 9]).expect("second upload");
    store.commit("file.webp", 5).expect("commit");
    assert_eq!(store.show("0.webp").expect("show"), vec![9, 9]);
}

#[test]
fn commit_without_a_staged_file_is_not_found() {
    let mut store = ImageStore::new();
    assert_eq!(store.commit("missing.webp", 1).unwrap_err(), ApiError::NotFound);
    // A second commit of an already-committed staging also finds nothing.
    store.upload("file", vec![1]).expect("upload");
    store.commit("file.webp", 1).expect("commit");
    assert_eq!(store.commit("file.webp", 2).unwrap_err(), ApiError::NotFound);
}

#[test]
fn commit_refuses_a_name_a_row_already_carries() {
    let mut store = ImageStore::new();
    store.rows.push(row(0, "file.webp", 1));
    store.next_id = 1;
    store.upload("file", vec![1]).expect("upload");
    assert_eq!(store.commit("file.webp", 2).unwrap_err(), ApiError::Conflict);
}

#[test]
fn delete_is_idempotent_in_effect() {
    let mut store = ImageStore::new();
    store.upload("file", vec![1, 2]).expect("upload");
    let committed = store.commit("file.webp", 1).expect("commit");
    assert!(store.delete(committed.id).is_ok());
    assert_eq!(store.show("0.webp"), Err(ApiError::NotFound));
    // Second call on the same id: the row is gone.
    assert_eq!(store.delete(committed.id).unwrap_err(), ApiError::NotFound);
    assert_eq!(store.delete(committed.id).unwrap_err(), ApiError::NotFound);
}

#[test]
fn delete_removes_the_row_even_when_the_file_is_absent() {
    let mut store = ImageStore::new();
    store.rows.push(row(7, "ghost.webp", 1));
    store.next_id = 8;
    assert!(store.delete(7).is_ok());
    assert_eq!(store.delete(7).unwrap_err(), ApiError::NotFound);
    assert_eq!(store.get(7).unwrap_err(), ApiError::NotFound);
}

#[test]
fn reconcile_adopts_orphans_once_and_reports_dangling_rows() {
    let mut store = ImageStore::new();
    store.files.push(file("a.webp", &[1]));
    store.files.push(file("b.webp", &[2]));
    store.rows.push(row(0, "a.webp", 1));
    store.rows.push(row(1, "ghost.webp", 1));
    store.next_id = 2;

    let report = store.reconcile(50);
    assert_eq!(report.adopted, vec!["b.webp".to_string()]);
    assert_eq!(report.dangling, vec!["ghost.webp".to_string()]);
    assert_eq!(store.rows.len(), 3);
    assert_eq!(store.rows[2].name, "b.webp");
    assert_eq!(store.rows[2].created_at, 50);

    // A second run against the unchanged directory creates zero new rows.
    let again = store.reconcile(60);
    assert_eq!(again.adopted.len(), 0);
    assert_eq!(store.rows.len(), 3);
    // The dangling row survives reconciliation and is surfaced again.
    assert_eq!(again.dangling, vec!["ghost.webp".to_string()]);
    assert!(store.get(1).is_ok());
}

#[test]
fn list_pages_the_creation_ordered_rows() {
    let mut store = ImageStore::new();
    for i in 0..12u64 {
        store.rows.push(row(i, &format!("{}.webp", i), i));
    }
    store.next_id = 12;

    let (count, items) = store.list(Some(2), Some(5));
    assert_eq!(count, 12);
    let names: Vec<&str> = items.iter().map(|m| m.name.as_str()).collect();
    // Page 2 with limit 5 is items 6 through 10 of the sequence.
    assert_eq!(names, vec!["5.webp", "6.webp", "7.webp", "8.webp", "9.webp"]);

    // Absent page, page 1 and page 0 request the same window.
    let (_, first) = store.list(None, Some(5));
    let (_, first_explicit) = store.list(Some(1), Some(5));
    let (_, first_clamped) = store.list(Some(0), Some(5));
    let view = |v: &Vec<ImageModel>| v.iter().map(|m| m.id).collect::<Vec<u64>>();
    assert_eq!(view(&first), vec![0, 1, 2, 3, 4]);
    assert_eq!(view(&first), view(&first_explicit));
    assert_eq!(view(&first), view(&first_clamped));

    // Defaults: page 1, limit 10.
    let (_, defaults) = store.list(None, None);
    assert_eq!(defaults.len(), 10);

    // A page past the end is empty, the count unchanged.
    let (count2, past) = store.list(Some(4), Some(5));
    assert_eq!(count2, 12);
    assert_eq!(past.len(), 0);
}

#[test]
fn update_name_merges_partial_fields_and_moves_the_file() {
    let mut store = ImageStore::new();
    store.upload("file", vec![5]).expect("upload");
    let committed = store.commit("file.webp", 1).expect("commit");

    let renamed = store
        .update_name(committed.id, UpdateImageSchema { name: Some("new.webp".to_string()) }, 9)
        .expect("rename");
    assert_eq!(renamed.name, "new.webp");
    assert_eq!(renamed.created_at, 1);
    assert_eq!(renamed.updated_at, 9);
    assert_eq!(store.show("new.webp").expect("moved file"), vec![5]);
    assert_eq!(store.show("0.webp"), Err(ApiError::NotFound));

    // An absent name keeps the stored one and only refreshes the timestamp.
    let kept = store.update_name(committed.id, UpdateImageSchema { name: None }, 11).expect("keep");
    assert_eq!(kept.name, "new.webp");
    assert_eq!(kept.updated_at, 11);

    assert_eq!(
        store.update_name(999, UpdateImageSchema { name: None }, 12).unwrap_err(),
        ApiError::NotFound
    );
}

#[test]
fn update_name_refuses_a_name_another_row_carries() {
    let mut store = ImageStore::new();
    store.rows.push(row(0, "a.webp", 1));
    store.rows.push(row(1, "b.webp", 1));
    store.next_id = 2;
    let err = store
        .update_name(0, UpdateImageSchema { name: Some("b.webp".to_string()) }, 2)
        .unwrap_err();
    assert_eq!(err, ApiError::Conflict);
    // Renaming a row to its own name is allowed.
    assert!(store.update_name(0, UpdateImageSchema { name: Some("a.webp".to_string()) }, 3).is_ok());
}

#[test]
fn show_rejects_paths_that_resolve_outside_the_directory() {
    let mut store = ImageStore::new();
    store.files.push(file("ok.webp", &[1]));
    assert_eq!(store.show("../ok.webp"), Err(ApiError::Validation));
    assert_eq!(store.show("a/../b"), Err(ApiError::Validation));
    assert_eq!(store.show("."), Err(ApiError::Validation));
    assert_eq!(store.show(".."), Err(ApiError::Validation));
    assert_eq!(store.show(""), Err(ApiError::Validation));
    assert_eq!(store.show("ok.webp").expect("plain name"), vec![1]);
    assert_eq!(store.show("other.webp"), Err(ApiError::NotFound));
}

#[test]
fn name_builders_render_decimal_ids() {
    assert_eq!(staged_file_name("avatar"), "avatar.webp");
    assert_eq!(committed_file_name(0), "0.webp");
    assert_eq!(committed_file_name(107), "107.webp");
    assert_eq!(committed_file_name(u64::MAX), "18446744073709551615.webp");
}

#[test]
fn commit_with_exhausted_id_space_is_internal() {
    let mut store = ImageStore::new();
    store.next_id = u64::MAX;
    store.upload("file", vec![1]).expect("upload");
    let err = store.commit("file.webp", 1).unwrap_err();
    assert_eq!(err, ApiError::Internal);
    assert_eq!(err.status_code(), 500);
    // The staged file is untouched by the failed commit.
    assert_eq!(store.show("file.webp").expect("still staged"), vec![1]);
}

#[test]
fn get_returns_the_stored_row() {
    let mut store = ImageStore::new();
    store.rows.push(row(3, "x.webp", 42));
    store.next_id = 4;
    let m = store.get(3).expect("get");
    assert_eq!(m.id, 3);
    assert_eq!(m.name, "x.webp");
    assert_eq!(m.created_at, 42);
    assert_eq!(store.get(4).unwrap_err(), ApiError::NotFound);
    assert_eq!(store.get(4).unwrap_err().status_code(), 404);
}
