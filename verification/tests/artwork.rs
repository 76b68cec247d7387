use capsule::artwork::{
    cache_dir, cache_key, cache_path, content_type, fetch_failure, fetch_url, is_subsonic_ref,
    parse_request, request_from, resolve_template, response_headers, rewrite_literal_size,
    subsonic_id, wanted_size, Prefetch, PrefetchNote,
};
use capsule::db::{Artwork, MAX_ARTWORK};
use capsule::subsonic::{cover_art_ref, Client, Credentials};

#[test]
fn resolves_every_placeholder_apple_uses() {
    let t = "https://is1.mzstatic.com/image/thumb/x/{w}x{h}{c}.{f}";
    let out = resolve_template(t, 300);
    assert_eq!(out, "https://is1.mzstatic.com/image/thumb/x/300x300bb.jpg");
    assert!(!out.contains('{'), "unresolved placeholder: {out}");
}

#[test]
fn template_without_any_size_is_left_alone() {
    let t = "https://example.com/cover.png";
    assert_eq!(resolve_template(t, 300), t);
}

#[test]
fn subsonic_refs_are_recognised_and_parsed() {
    assert!(is_subsonic_ref("subsonic:al-1"));
    assert!(!is_subsonic_ref("https://example.com/{w}x{h}bb.jpg"));
    assert_eq!(subsonic_id("subsonic:al-1").as_deref(), Some("al-1"));
    assert_eq!(subsonic_id("https://example.com/a.jpg"), None);
}

#[test]
fn a_cover_reference_gives_its_id_back() {
    let r = cover_art_ref(Some("al-7".into())).unwrap();
    assert!(is_subsonic_ref(&r));
    assert_eq!(subsonic_id(&r).as_deref(), Some("al-7"));
}

#[test]
fn resolve_template_leaves_subsonic_refs_alone() {
    assert_eq!(resolve_template("subsonic:al-1", 300), "subsonic:al-1");
}

#[test]
fn cache_key_is_stable_for_a_subsonic_ref() {
    let dir = r"C:\cache";
    assert_eq!(cache_path(dir, "subsonic:al-1", 300), cache_path(dir, "subsonic:al-1", 300));
    assert_ne!(cache_path(dir, "subsonic:al-1", 300), cache_path(dir, "subsonic:al-2", 300));
}

#[test]
fn subsonic_artwork_without_a_client_errors_rather_than_fetching() {
    let res = fetch_url("subsonic:al-1", 56, None);
    assert!(res.is_err(), "must not attempt a fetch with no way to sign it");
}

#[test]
fn generated_playlist_cover_gets_its_literal_size_rewritten() {
    let t = "https://is1-ssl.mzstatic.com/image/thumb/gen/1200x1200AM.PDCXS11.jpg\
             ?c1=9DB3F2&signature=6a9f5e93&t=abc%3D%3D&vkey=1";
    let out = resolve_template(t, 56);
    assert!(out.contains("/gen/56x56AM.PDCXS11.jpg"), "{out}");
    assert!(out.contains("signature=6a9f5e93"), "{out}");
    assert!(out.contains("c1=9DB3F2"), "{out}");
    assert!(!out.contains("1200x1200"), "{out}");
}

#[test]
fn digits_in_the_query_string_are_never_rewritten() {
    let t = "https://cdn/image/gen/600x600A.jpg?signature=12x34&t=9x9";
    let out = resolve_template(t, 56);
    assert!(out.contains("/gen/56x56A.jpg"), "{out}");
    assert!(out.contains("signature=12x34"), "{out}");
    assert!(out.contains("t=9x9"), "{out}");
}

#[test]
fn directory_names_with_digits_are_not_mistaken_for_a_size() {
    let t = "https://is1.mzstatic.com/image/thumb/Music116/v4/ab/cd/file.jpg/300x300bb.jpg";
    let out = resolve_template(t, 56);
    assert!(out.ends_with("/56x56bb.jpg"), "{out}");
    assert!(out.contains("Music116/v4"), "{out}");
}

#[test]
fn placeholder_form_still_takes_precedence() {
    let t = "https://is1.mzstatic.com/image/thumb/x/{w}x{h}bb.{f}";
    assert_eq!(resolve_template(t, 300), "https://is1.mzstatic.com/image/thumb/x/300x300bb.jpg");
}

#[test]
fn a_lone_number_without_an_x_is_not_a_size() {
    let t = "https://cdn/image/gen/1200AM.jpg";
    assert_eq!(resolve_template(t, 56), t);
}

#[test]
fn only_the_first_size_in_a_file_name_is_rewritten() {
    assert_eq!(rewrite_literal_size("a/1x2-3x4", 9).as_deref(), Some("a/9x9-3x4"));
    assert_eq!(rewrite_literal_size("a/12xb34x5c?6x7", 9).as_deref(), Some("a/12xb9x9c?6x7"));
    assert_eq!(rewrite_literal_size("a/1x1x2", 9).as_deref(), Some("a/9x9x2"));
    assert_eq!(rewrite_literal_size("a/12x", 9), None);
    assert_eq!(rewrite_literal_size("12x34", 9), None, "no directory, no file name");
}

#[test]
fn parses_id_and_size() {
    let (id, size) = parse_request("artwork://localhost/l.abc123?w=600").unwrap();
    assert_eq!(id, "l.abc123");
    assert_eq!(size, 600);
}

#[test]
fn size_defaults_and_clamps() {
    assert_eq!(parse_request("artwork://localhost/x").unwrap().1, 300);
    assert_eq!(parse_request("artwork://localhost/x?w=99999").unwrap().1, 3000);
    assert_eq!(parse_request("artwork://localhost/x?w=1").unwrap().1, 32);
    assert_eq!(parse_request("artwork://localhost/x?w=abc").unwrap().1, 300);
}

#[test]
fn zero_is_the_sentinel_for_full_size() {
    assert_eq!(parse_request("artwork://localhost/x?w=0").unwrap().1, 0);
}

#[test]
fn requests_never_exceed_the_source_resolution() {
    let small = Artwork { template: "t".into(), max_side: Some(600) };
    assert_eq!(small.clamp(3000), 600);
    assert_eq!(small.best_size(), 600);
    assert_eq!(small.clamp(56), 56);
}

#[test]
fn unknown_dimensions_fall_back_to_apples_ceiling() {
    let unknown = Artwork { template: "t".into(), max_side: None };
    assert_eq!(unknown.best_size(), MAX_ARTWORK);
    assert_eq!(unknown.clamp(56), 56);
}

#[test]
fn oversized_source_is_still_capped_at_apples_ceiling() {
    let huge = Artwork { template: "t".into(), max_side: Some(10_000) };
    assert_eq!(huge.best_size(), MAX_ARTWORK);
}

#[test]
fn handles_the_http_rewrite_tauri_uses_on_windows() {
    let (id, size) = parse_request("http://artwork.localhost/i.999?w=64").unwrap();
    assert_eq!(id, "i.999");
    assert_eq!(size, 64);
}

#[test]
fn percent_encoded_ids_round_trip() {
    let (id, _) = parse_request("artwork://localhost/l.a%20b?w=300").unwrap();
    assert_eq!(id, "l.a b");
}

#[test]
fn an_id_that_is_no_text_stays_encoded() {
    let (id, _) = parse_request("artwork://localhost/a%FF").unwrap();
    assert_eq!(id, "a%FF");
}

#[test]
fn empty_path_is_rejected_rather_than_served() {
    assert!(parse_request("artwork://localhost/").is_none());
    assert!(parse_request("not a url").is_none());
}

#[test]
fn the_last_segment_and_the_first_width_count() {
    let segments = Some(vec!["a".to_string(), "b".to_string()]);
    let pairs = Some(vec![
        ("v".to_string(), "1".to_string()),
        ("w".to_string(), "64".to_string()),
        ("w".to_string(), "128".to_string()),
    ]);
    assert_eq!(request_from(segments.clone(), pairs), Some(("b".to_string(), 64)));
    assert_eq!(request_from(segments, Some(vec![])), Some(("b".to_string(), 300)));
    assert_eq!(request_from(None, Some(vec![])), None);
}

#[test]
fn cache_path_separates_sizes_of_the_same_art() {
    let dir = "C:/tmp";
    let t = "https://a/{w}x{h}.jpg";
    assert_ne!(cache_path(dir, t, 56), cache_path(dir, t, 300));
}

#[test]
fn cache_key_is_stable_and_distinct() {
    assert_eq!(cache_key("https://a/{w}x{h}.jpg"), cache_key("https://a/{w}x{h}.jpg"));
    assert_ne!(cache_key("https://a/1.jpg"), cache_key("https://a/2.jpg"));
}

#[test]
fn presigned_urls_key_the_same_despite_a_new_signature() {
    let base = "https://store-033.blobstore.apple.com/x/y/image";
    let a = format!("{base}?X-Amz-Date=20260726T153726Z&X-Amz-Signature=aaa&X-Amz-Expires=86400");
    let b = format!("{base}?X-Amz-Date=20260727T090000Z&X-Amz-Signature=bbb&X-Amz-Expires=86400");
    assert_eq!(cache_key(&a), cache_key(&b));
    assert_eq!(cache_key(&a), cache_key(base));
}

#[test]
fn an_address_signed_anew_is_cached_in_one_file() {
    let base = "https://store-033.blobstore.apple.com/x/y/image";
    let a = format!("{base}?X-Amz-Date=1&x-amz-signature=aaa");
    let b = format!("{base}?X-AMZ-Signature=bbb");
    for dir in ["", "/c", "/c/", "c", r"C:", r"C:\c", r"\\?\C:\c"] {
        assert_eq!(cache_path(dir, &a, 300), cache_path(dir, base, 300), "{dir}");
        assert_eq!(cache_path(dir, &b, 300), cache_path(dir, base, 300), "{dir}");
        assert_ne!(cache_path(dir, base, 56), cache_path(dir, base, 300), "{dir}");
        let path = cache_path(dir, base, 56);
        assert!(path.starts_with(dir), "{path}");
        assert!(path.ends_with(&format!("{}-56.img", cache_key(base))), "{path}");
    }
}

#[test]
fn generated_covers_sharing_a_path_do_not_collide() {
    let one = "https://cdn/image/gen/1200x1200AM.jpg?c1=9DB3F2&t=aaa";
    let two = "https://cdn/image/gen/1200x1200AM.jpg?c1=F29D9D&t=bbb";
    assert_ne!(cache_key(one), cache_key(two));
}

#[test]
fn presigned_case_variants_are_still_stripped() {
    let a = "https://s/x/image?X-Amz-Signature=aaa";
    let b = "https://s/x/image?x-amz-signature=bbb";
    assert_eq!(cache_key(a), cache_key(b));
}

#[test]
fn a_cover_is_cached_under_its_digest_and_size() {
    assert_eq!(
        cache_key("abc"),
        "ba7816bf8f01cfea414140de5dae2223b00361a396177a9cb410ff61f20015ad"
    );
    assert!(cache_path("/c", "abc", 56).ends_with(
        "ba7816bf8f01cfea414140de5dae2223b00361a396177a9cb410ff61f20015ad-56.img"
    ));
}

#[test]
fn content_type_follows_extension() {
    assert_eq!(content_type("https://a/x.png"), "image/png");
    assert_eq!(content_type("https://a/x.webp"), "image/webp");
    assert_eq!(content_type("https://a/x.jpg"), "image/jpeg");
    assert_eq!(content_type("https://a/X.PNG?w=1"), "image/png");
}

#[test]
fn env_override_wins_for_cache_dir() {
    let d = cache_dir(Some(r"C:\tmp\art".into()), Some(r"C:\appdata".into()));
    assert_eq!(d.as_deref(), Some(r"C:\tmp\art"));
}

#[test]
fn without_an_override_covers_live_in_the_data_directory() {
    assert!(cache_dir(Some("  ".into()), Some("/data".into())).unwrap().ends_with("artwork"));
    assert_eq!(cache_dir(None, None), None);
}

#[test]
fn a_cover_is_fetched_by_a_signed_or_a_resolved_url() {
    let c = Client::new(
        Credentials { base_url: "h".into(), username: "u".into(), password: "p".into() },
        1,
    );
    let c = match c {
        Ok(c) => c,
        Err(e) => panic!("{}", e.message()),
    };
    let url = fetch_url("subsonic:al-1", 56, Some(&c)).unwrap();
    assert!(url.starts_with("https://h/rest/getCoverArt.view?u=u&t="), "{url}");
    assert!(url.ends_with("&id=al-1&size=56"), "{url}");
    assert_eq!(fetch_url("https://a/{w}.jpg", 56, Some(&c)).unwrap(), "https://a/56.jpg");
    assert_eq!(fetch_failure(true), "artwork timed out");
    assert_eq!(fetch_failure(false), "artwork could not be fetched");
}

#[test]
fn a_full_size_request_takes_the_most_there_is() {
    let art = Artwork { template: "t".into(), max_side: Some(600) };
    assert_eq!(wanted_size(&art, 0), 600);
    assert_eq!(wanted_size(&art, 64), 64);
    assert_eq!(wanted_size(&art, 900), 600);
}

#[test]
fn served_covers_may_be_kept_for_good() {
    let h = response_headers("image/png");
    assert_eq!(h[0], ("Content-Type".to_string(), "image/png".to_string()));
    assert_eq!(h[1], ("Access-Control-Allow-Origin".to_string(), "*".to_string()));
    assert_eq!(
        h[2],
        ("Cache-Control".to_string(), "public, max-age=31536000, immutable".to_string())
    );
}

#[test]
fn prefetching_counts_what_came_and_what_stayed_large() {
    let mut p = Prefetch::new(3);
    assert_eq!(p.on_cached("https://a/{w}.jpg", 56, 100), PrefetchNote::Fine);
    assert_eq!(p.on_cached("https://a/{w}.jpg", 56, 40_001), PrefetchNote::StillLarge);
    assert_eq!(p.on_cached("https://a/x.jpg", 56, 50_000), PrefetchNote::Unresizable);
    assert_eq!((p.total, p.cached, p.bytes, p.unresizable), (3, 3, 90_101, 1));
}
