use portfolio_core::errors::ApiError;
use portfolio_core::pagination::page_window;
use portfolio_core::schemas::{
    CreateJobSchema, CreateTestimonialSchema, CreateUserSchema, UpdateJobSchema,
    UpdateTestimonialSchema, UpdateUserSchema,
};
use portfolio_core::text::{is_safe_path, str_eq, u64_to_dec};
use portfolio_core::translation::{
    health_message, is_excluded_column, public_columns, ColumnValue,
};

#[test]
fn error_taxonomy_maps_to_http_status_codes() {
    assert_eq!(ApiError::Unauthorized.status_code(), 401);
    assert_eq!(ApiError::NotFound.status_code(), 404);
    assert_eq!(ApiError::Conflict.status_code(), 409);
    assert_eq!(ApiError::Validation.status_code(), 422);
    assert_eq!(ApiError::Internal.status_code(), 500);
    assert_eq!(ApiError::Internal.status_label(), "error");
    assert_eq!(ApiError::NotFound.status_label(), "fail");
    assert_eq!(ApiError::Internal.message(), "Something went wrong");
}

#[test]
fn page_window_computes_offsets_and_clamps() {
    assert_eq!(page_window(12, Some(2), Some(5)), (5, 10));
    assert_eq!(page_window(12, None, None), (0, 10));
    assert_eq!(page_window(12, Some(1), Some(5)), (0, 5));
    assert_eq!(page_window(12, None, Some(5)), (0, 5));
    // Page 0 would underflow the offset; it is clamped to page 1.
    assert_eq!(page_window(12, Some(0), Some(5)), (0, 5));
    // Windows past the end collapse.
    assert_eq!(page_window(3, Some(9), Some(5)), (3, 3));
    // Huge requests cannot overflow.
    assert_eq!(page_window(10, Some(usize::MAX), Some(usize::MAX)), (10, 10));
}

#[test]
fn job_update_keeps_unspecified_fields() {
    let current = CreateJobSchema {
        company: "Acme".to_string(),
        title: "Engineer".to_string(),
        date: "2020".to_string(),
        description: "old".to_string(),
    };
    let patch = UpdateJobSchema {
        company: None,
        title: Some("Lead".to_string()),
        date: None,
        description: Some("new".to_string()),
    };
    let merged = patch.apply(current);
    assert_eq!(merged.company, "Acme");
    assert_eq!(merged.title, "Lead");
    assert_eq!(merged.date, "2020");
    assert_eq!(merged.description, "new");
}

#[test]
fn testimonial_update_keeps_unspecified_fields() {
    let current = CreateTestimonialSchema {
        name: "N".to_string(),
        comment: "C".to_string(),
        position: "P".to_string(),
        company: "Co".to_string(),
        img: "i.webp".to_string(),
    };
    let patch = UpdateTestimonialSchema {
        name: None,
        comment: Some("better".to_string()),
        position: None,
        company: None,
        img: None,
    };
    let merged = patch.apply(current);
    assert_eq!(merged.name, "N");
    assert_eq!(merged.comment, "better");
    assert_eq!(merged.position, "P");
    assert_eq!(merged.company, "Co");
    assert_eq!(merged.img, "i.webp");
}

#[test]
fn user_update_keeps_unspecified_fields() {
    let current = CreateUserSchema {
        username: "u".to_string(),
        password: "h".to_string(),
        email: "e@x.com".to_string(),
        fullname: "F".to_string(),
        role: 1,
        avatar: "a".to_string(),
        notes: "n".to_string(),
        active: 1,
    };
    let patch = UpdateUserSchema {
        username: None,
        password: None,
        email: None,
        fullname: None,
        role: Some(3),
        avatar: None,
        notes: None,
        active: Some(0),
    };
    let merged = patch.apply(current);
    assert_eq!(merged.role, 3);
    assert_eq!(merged.active, 0);
    assert_eq!(merged.username, "u");
    assert_eq!(merged.email, "e@x.com");
}

#[test]
fn translation_dump_excludes_internal_columns() {
    assert!(is_excluded_column("id"));
    assert!(is_excluded_column("created_at"));
    assert!(is_excluded_column("updated_at"));
    assert!(!is_excluded_column("title"));

    let cv = |n: &str, v: &str| ColumnValue { name: n.to_string(), value: v.to_string() };
    let row = vec![
        cv("id", "42"),
        cv("title", "Hello"),
        cv("created_at", "2020"),
        cv("company", "Acme"),
        cv("updated_at", "2021"),
    ];
    let public = public_columns(row);
    let names: Vec<&str> = public.iter().map(|c| c.name.as_str()).collect();
    assert_eq!(names, vec!["title", "company"]);
    assert_eq!(public[0].value, "Hello");
    assert_eq!(public[1].value, "Acme");
}

#[test]
fn health_message_is_fixed() {
    assert_eq!(health_message(), "Simple CRUD API with Rust, SQLX, Postgres,and Axum");
}

#[test]
fn text_helpers_behave_on_edges() {
    assert_eq!(u64_to_dec(0), "0");
    assert_eq!(u64_to_dec(9), "9");
    assert_eq!(u64_to_dec(10), "10");
    assert_eq!(u64_to_dec(107), "107");

    assert!(str_eq("", ""));
    assert!(str_eq("abc", "abc"));
    assert!(!str_eq("abc", "abd"));
    assert!(!str_eq("abc", "ab"));

    assert!(is_safe_path("ok.webp"));
    assert!(is_safe_path("with space.webp"));
    assert!(!is_safe_path(""));
    assert!(!is_safe_path("."));
    assert!(!is_safe_path(".."));
    assert!(!is_safe_path("a/b"));
    assert!(!is_safe_path("a\\b"));
    assert!(!is_safe_path("/etc/passwd"));
    assert!(is_safe_path("..."));
}
