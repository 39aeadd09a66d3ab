use shortlink::base62::{alphabet, encode_u64};
use shortlink::memory_repo::InMemoryRepo;
use shortlink::model::{
    about, AuditAction, Clock, CoreError, GroupRole, NewLink, ShortLink, Slug, SlugGenerator,
    UserEmail,
};
use shortlink::repository::LinkRepository;
use shortlink::service::LinkService;
use shortlink::slug::Base62SlugGenerator;
use shortlink::validate::{validate_custom_slug, validate_original_url};

struct TestClock;

impl Clock for TestClock {
    fn now(&self) -> u64 {
        0
    }
}

fn mk_link(slug: &str) -> ShortLink {
    ShortLink::new(
        Slug::new(slug).unwrap(),
        "https://example.com".to_string(),
        0,
        UserEmail::new("user@example.com").unwrap(),
    )
}

#[test]
fn memory_repo_put_get_roundtrip() {
    let mut repo = InMemoryRepo::new();
    let link = mk_link("abc");
    repo.put(link.clone()).unwrap();
    let got = repo.get(&link.slug).unwrap().unwrap();
    assert_eq!(got.original_url, "https://example.com");
}

#[test]
fn put_rejects_duplicate() {
    let mut repo = InMemoryRepo::new();
    let link = mk_link("dup");
    repo.put(link.clone()).unwrap();
    let err = repo.put(link).unwrap_err();
    assert!(matches!(err, CoreError::AlreadyExists));
}

#[test]
fn list_honors_limit() {
    let mut repo = InMemoryRepo::new();
    for i in 0..10 {
        let s = format!("k{}", i);
        let _ = repo.put(mk_link(&s));
    }
    let v = repo.list(5).unwrap();
    assert_eq!(v.len(), 5);
}

#[test]
fn alphabet_len() {
    assert_eq!(alphabet().len(), 62);
}

#[test]
fn encodes_known_vectors() {
    assert_eq!(encode_u64(0), "0");
    assert_eq!(encode_u64(61), "z");
    assert_eq!(encode_u64(62), "10");
    assert_eq!(encode_u64(63), "11");
    assert_eq!(encode_u64(3843), "zz");
}

#[test]
fn slug_new_accepts_simple_values() {
    let s = Slug::new("abc123").expect("valid slug");
    assert_eq!(s.as_str(), "abc123");
}

#[test]
fn slug_rejects_empty() {
    let err = Slug::new("").unwrap_err();
    match err {
        CoreError::InvalidSlug(_) => {}
        _ => panic!("expected InvalidSlug"),
    }
}

#[test]
fn user_email_basic_validation() {
    let ok = UserEmail::new("user@example.com");
    assert!(ok.is_ok());

    let bad = UserEmail::new("not-an-email");
    assert!(matches!(bad, Err(CoreError::InvalidUserEmail)));
}

#[test]
fn create_auto_generates_and_resolves() {
    let mut svc = LinkService::new(InMemoryRepo::new(), Base62SlugGenerator::new(1), TestClock);
    let input = NewLink {
        original_url: "https://example.com".to_string(),
        custom_slug: None,
        user_email: UserEmail::new("user@example.com").unwrap(),
    };
    let created = svc.create(input).expect("created");
    let url = svc.resolve(&created.slug).unwrap();
    assert_eq!(url, "https://example.com");
}

#[test]
fn create_with_custom_slug_and_collision() {
    let mut svc = LinkService::new(InMemoryRepo::new(), Base62SlugGenerator::new(1), TestClock);
    let custom = Slug::new("custom1").unwrap();
    let a = NewLink {
        original_url: "https://one".to_string(),
        custom_slug: Some(custom.clone()),
        user_email: UserEmail::new("a@e.com").unwrap(),
    };
    let _ = svc.create(a).unwrap();

    let b = NewLink {
        original_url: "https://two".to_string(),
        custom_slug: Some(custom.clone()),
        user_email: UserEmail::new("b@e.com").unwrap(),
    };
    let err = svc.create(b).unwrap_err();
    assert!(matches!(err, CoreError::AlreadyExists));
}

#[test]
fn resolve_not_found() {
    let svc = LinkService::new(InMemoryRepo::new(), Base62SlugGenerator::new(1), TestClock);
    let missing = Slug::new("missing").unwrap();
    let err = svc.resolve(&missing).unwrap_err();
    assert!(matches!(err, CoreError::NotFound));
}

#[test]
fn list_returns_items() {
    let mut svc = LinkService::new(InMemoryRepo::new(), Base62SlugGenerator::new(1), TestClock);
    for i in 0..3 {
        let _ = svc.create(NewLink {
            original_url: format!("https://e/{}", i),
            custom_slug: None,
            user_email: UserEmail::new("u@e.com").unwrap(),
        });
    }
    let items = svc.list(2).unwrap();
    assert_eq!(items.len(), 2);
}

#[test]
fn deterministic_mapping() {
    let g = Base62SlugGenerator::new(0);
    assert_eq!(g.next_slug(0).as_str(), "0");
    assert_eq!(g.next_slug(61).as_str(), "z");
    assert_eq!(g.next_slug(62).as_str(), "10");
}

#[test]
fn min_width_padding() {
    let g = Base62SlugGenerator::new(4);
    assert_eq!(g.next_slug(0).as_str(), "0000");
    assert_eq!(g.next_slug(1).as_str(), "0001");
    assert_eq!(g.next_slug(62).as_str(), "0010");
    assert_eq!(g.next_slug(3843).as_str(), "00zz");
    let g2 = Base62SlugGenerator::new(2);
    assert_eq!(g2.next_slug(3843).as_str(), "zz");
}

#[test]
fn url_validation_basic() {
    assert!(validate_original_url("https://example.com").is_ok());
    assert!(validate_original_url("http://example.com").is_ok());
    assert!(validate_original_url("").is_err());
    assert!(validate_original_url("ftp://example.com").is_err());
}

#[test]
fn slug_validation_delegates() {
    assert!(validate_custom_slug("abc-123").is_ok());
    assert!(validate_custom_slug("").is_err());
    assert!(validate_custom_slug("bad/char").is_err());
}

#[test]
fn url_validation_trims_and_bounds_length() {
    assert!(validate_original_url("  https://example.com  ").is_ok());
    assert!(matches!(validate_original_url("   "), Err(CoreError::InvalidUrl(m)) if m == "empty"));
    let long = format!("https://{}", "a".repeat(2041));
    assert!(matches!(validate_original_url(&long), Err(CoreError::InvalidUrl(m)) if m == "too long"));
    let edge = format!("https://{}", "a".repeat(2040));
    assert!(validate_original_url(&edge).is_ok());
}

#[test]
fn slug_rejects_bad_characters_with_message() {
    assert!(matches!(Slug::new("bad/char"), Err(CoreError::InvalidSlug(m)) if m == "invalid characters"));
    assert!(matches!(Slug::new(""), Err(CoreError::InvalidSlug(m)) if m == "empty"));
}

#[test]
fn roles_and_actions_parse_in_any_case() {
    assert_eq!(GroupRole::parse("EDITOR"), Some(GroupRole::Editor));
    assert_eq!(GroupRole::parse("owner"), None);
    assert_eq!(GroupRole::Admin.as_str(), "admin");
    assert!(GroupRole::Editor.can_edit());
    assert!(!GroupRole::Viewer.can_edit());
    assert!(GroupRole::Admin.can_manage());
    assert!(!GroupRole::Editor.can_manage());
    assert_eq!(AuditAction::parse("Add_Member"), Some(AuditAction::AddMember));
    assert_eq!(AuditAction::RemoveMember.as_str(), "remove_member");
    assert_eq!(AuditAction::parse("rename"), None);
}

#[test]
fn link_availability_follows_times() {
    let mut l = mk_link("avail");
    assert!(l.is_available(100));
    l.expires_at = Some(100);
    assert!(l.is_expired(100));
    assert!(!l.is_expired(99));
    assert!(!l.is_available(100));
    l.expires_at = None;
    l.activate_at = Some(50);
    assert!(l.is_scheduled(49));
    assert!(!l.is_scheduled(50));
    l.activate_at = None;
    l.deleted_at = Some(1);
    assert!(l.is_deleted());
    assert!(!l.is_available(100));
}

#[test]
fn repo_update_click_and_delete() {
    let mut repo = InMemoryRepo::new();
    let link = mk_link("upd");
    repo.put(link.clone()).unwrap();
    repo.increment_click(&link.slug).unwrap();
    repo.increment_click(&link.slug).unwrap();
    assert_eq!(repo.get(&link.slug).unwrap().unwrap().click_count, 2);
    let mut changed = link.clone();
    changed.original_url = "https://new.com".to_string();
    repo.update(&changed).unwrap();
    assert_eq!(repo.get(&link.slug).unwrap().unwrap().original_url, "https://new.com");
    assert!(matches!(repo.update(&mk_link("absent")), Err(CoreError::NotFound)));
    assert!(matches!(repo.increment_click(&Slug::new("absent").unwrap()), Err(CoreError::NotFound)));
    repo.delete(&link.slug, 7).unwrap();
    assert_eq!(repo.get(&link.slug).unwrap().unwrap().deleted_at, Some(7));
    assert_eq!(repo.list(10).unwrap().len(), 0);
}

#[test]
fn list_by_creator_filters_owner() {
    let mut repo = InMemoryRepo::new();
    repo.put(mk_link("a1")).unwrap();
    let other = ShortLink::new(
        Slug::new("b1").unwrap(),
        "https://b".to_string(),
        0,
        UserEmail::new("other@example.com").unwrap(),
    );
    repo.put(other).unwrap();
    let mine = repo
        .list_by_creator(&UserEmail::new("user@example.com").unwrap(), 10)
        .unwrap();
    assert_eq!(mine.len(), 1);
    assert_eq!(mine[0].slug.as_str(), "a1");
}

#[test]
fn create_rejects_invalid_url_and_stores_link() {
    let mut svc = LinkService::new(InMemoryRepo::new(), Base62SlugGenerator::new(3), TestClock);
    let bad = NewLink {
        original_url: "ftp://x".to_string(),
        custom_slug: None,
        user_email: UserEmail::new("u@e.com").unwrap(),
    };
    assert!(matches!(svc.create(bad), Err(CoreError::InvalidUrl(_))));
    let ok = svc
        .create(NewLink {
            original_url: "https://x".to_string(),
            custom_slug: None,
            user_email: UserEmail::new("u@e.com").unwrap(),
        })
        .unwrap();
    assert_eq!(ok.slug.as_str(), "000");
    assert_eq!(ok.click_count, 0);
    assert!(ok.is_active);
    assert!(svc.get(&ok.slug).unwrap().is_some());
}

#[test]
fn about_names_the_library() {
    assert_eq!(about(), "shortlink v0.1.0 - domain library loaded");
}

#[test]
fn create_skips_generated_slugs_in_use() {
    let mut svc = LinkService::new(InMemoryRepo::new(), Base62SlugGenerator::new(1), TestClock);
    let taken = NewLink {
        original_url: "https://taken".to_string(),
        custom_slug: Some(Slug::new("0").unwrap()),
        user_email: UserEmail::new("u@e.com").unwrap(),
    };
    svc.create(taken).unwrap();
    let made = svc
        .create(NewLink {
            original_url: "https://next".to_string(),
            custom_slug: None,
            user_email: UserEmail::new("u@e.com").unwrap(),
        })
        .unwrap();
    assert_eq!(made.slug.as_str(), "1");
    assert_eq!(made.created_at, 0);
    assert!(made.description.is_none() && made.group_id.is_none() && made.updated_at.is_none());
    let listed = svc.list(10).unwrap();
    let slugs: Vec<&str> = listed.iter().map(|l| l.slug.as_str()).collect();
    assert_eq!(slugs, vec!["0", "1"]);
}
