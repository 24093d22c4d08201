use bootflow::update::{
    asset_name_from_url, asset_rank, check, check_asset_url, classify, current_version,
    ensure_trusted_url, sorted_assets, status_problem, trim_notes, user_agent, GhAsset,
    GhRelease, UpdateCheck, UpdateStatus, Version, REPO,
};

#[test]
fn extracts_file_name_from_url() {
    assert_eq!(
        asset_name_from_url("https://github.com/TEGCeylonQi/bootflow/releases/download/v0.1.3/BootFlow_0.1.3_x64-setup.exe"),
        "BootFlow_0.1.3_x64-setup.exe"
    );
}

#[test]
fn file_name_falls_back_when_url_ends_with_slash() {
    assert_eq!(asset_name_from_url("https://github.com/x/"), "BootFlow-setup.exe");
}

#[test]
fn rejects_lookalike_host() {
    assert!(ensure_trusted_url("https://github.com.evil.test/x").is_err());
}

#[test]
fn puts_installer_before_portable() {
    let assets = vec![
        GhAsset {
            name: "bootflow-portable-x64.zip".into(),
            browser_download_url: "https://github.com/x/p".into(),
            size: 10,
        },
        GhAsset {
            name: "BootFlow_0.1.1_x64-setup.exe".into(),
            browser_download_url: "https://github.com/x/s".into(),
            size: 20,
        },
    ];

    let sorted = sorted_assets(assets);
    assert_eq!(sorted[0].name, "BootFlow_0.1.1_x64-setup.exe");
    assert_eq!(sorted[1].name, "bootflow-portable-x64.zip");
}

#[test]
fn keeps_unrecognized_assets_last_without_reordering_them() {
    let mk = |n: &str| GhAsset {
        name: n.into(),
        browser_download_url: "https://github.com/x/y".into(),
        size: 1,
    };

    let sorted = sorted_assets(vec![mk("checksums.txt"), mk("bootflow.msi"), mk("extra.txt")]);
    assert_eq!(sorted[0].name, "bootflow.msi");
    assert_eq!(sorted[1].name, "checksums.txt");
    assert_eq!(sorted[2].name, "extra.txt");
}

#[test]
fn asset_rank_covers_each_group() {
    assert_eq!(asset_rank("App-SETUP.exe"), 0);
    assert_eq!(asset_rank("app-installer.zip"), 0);
    assert_eq!(asset_rank("app.MSI"), 0);
    assert_eq!(asset_rank("app-Portable.zip"), 1);
    assert_eq!(asset_rank("notes.txt"), 2);
}

#[test]
fn parses_plain_and_prefixed() {
    assert_eq!(Version::parse("0.1.1").unwrap().to_string(), "0.1.1");
    assert_eq!(Version::parse("v0.1.1").unwrap().to_string(), "0.1.1");
    assert_eq!(Version::parse(" V1.2.3 ").unwrap().to_string(), "1.2.3");
}

#[test]
fn missing_segments_default_to_zero() {
    let v = Version::parse("v2").unwrap();
    assert_eq!((v.major, v.minor, v.patch), (2, 0, 0));
}

#[test]
fn build_metadata_is_ignored() {
    assert_eq!(Version::parse("1.2.3+build.7").unwrap().to_string(), "1.2.3");
}

#[test]
fn prerelease_tag_is_kept_in_text() {
    assert_eq!(Version::parse("1.0.0-beta.2").unwrap().to_string(), "1.0.0-beta.2");
    assert!(Version::parse("1.0.0-").unwrap().pre.is_none());
}

#[test]
fn rejects_non_semver_tags() {
    assert!(Version::parse("nightly").is_none());
    assert!(Version::parse("release-2026").is_none());
    assert!(Version::parse("").is_none());
}

fn newer(a: &str, b: &str) -> bool {
    Version::parse(a).unwrap().is_newer_than(&Version::parse(b).unwrap())
}

#[test]
fn compares_each_segment() {
    assert!(newer("0.1.1", "0.1.0"));
    assert!(newer("0.2.0", "0.1.9"));
    assert!(newer("1.0.0", "0.9.9"));
    assert!(!newer("0.1.0", "0.1.0"));
    assert!(!newer("0.1.0", "0.1.1"));
}

#[test]
fn stable_beats_prerelease_of_same_number() {
    assert!(newer("1.0.0", "1.0.0-beta"));
    assert!(!newer("1.0.0-beta", "1.0.0"));
    assert!(!newer("0.2.0-rc.1", "0.2.0"));
}

#[test]
fn compares_prerelease_identifiers() {
    assert!(newer("1.0.0-beta.2", "1.0.0-beta.1"));
    assert!(newer("1.0.0-beta.1", "1.0.0-beta"));
    assert!(newer("1.0.0-rc", "1.0.0-beta"));
    assert!(newer("1.0.0-alpha", "1.0.0-1"));
}

#[test]
fn newer_is_never_mutual() {
    let pairs = [("1.0.0-beta.2", "1.0.0-beta.10"), ("1.0.0", "1.0.0"), ("2.0.0-a", "2.0.0-a.1")];
    for (a, b) in pairs {
        assert!(!(newer(a, b) && newer(b, a)));
        assert!(!newer(a, a));
    }
    assert!(newer("1.0.0-beta.10", "1.0.0-beta.2"));
}

#[test]
fn ignores_leading_v_when_comparing() {
    assert!(newer("v0.2.0", "0.1.0"));
    assert!(!newer("v0.1.0", "0.1.0"));
}

#[test]
fn trims_notes_by_chars_not_bytes() {
    let long = "中文说明".repeat(600);
    let out = trim_notes(Some(long)).unwrap();
    assert!(out.ends_with("（说明过长，完整内容见发布页）"));
    assert!(!out.contains('\u{FFFD}'));
    assert_eq!(out.chars().count(), 1500 + "\n\n（说明过长，完整内容见发布页）".chars().count());
}

#[test]
fn keeps_short_notes_intact() {
    assert_eq!(trim_notes(Some("小改动".into())).unwrap(), "小改动");
}

#[test]
fn empty_notes_become_none() {
    assert!(trim_notes(Some("   ".into())).is_none());
    assert!(trim_notes(None).is_none());
}

#[test]
fn accepts_github_hosts() {
    assert!(ensure_trusted_url("https://github.com/TEGCeylonQi/bootflow/releases/tag/v0.1.1").is_ok());
    assert!(ensure_trusted_url("https://api.github.com/repos/a/b").is_ok());
    assert!(ensure_trusted_url("https://objects.githubusercontent.com/x/y").is_ok());
    assert!(ensure_trusted_url("https://GitHub.com:443/x").is_ok());
}

#[test]
fn rejects_lookalike_and_other_hosts() {
    assert!(ensure_trusted_url("https://github.com.evil.test/x").is_err());
    assert!(ensure_trusted_url("https://evil.test/github.com").is_err());
    assert!(ensure_trusted_url("http://github.com/x").is_err());
    assert!(ensure_trusted_url("file:///C:/windows/system32/calc.exe").is_err());
}

#[test]
fn rejection_message_names_the_host() {
    let e = ensure_trusted_url("https://user@Evil.Test:8080/x").unwrap_err();
    assert_eq!(e.message(), "拒绝打开非 GitHub 的地址：evil.test");
}

#[test]
fn installer_url_must_lie_under_release_downloads() {
    assert!(check_asset_url(
        "https://github.com/TEGCeylonQi/bootflow/releases/download/v0.1.3/a.exe"
    )
    .is_ok());
    assert!(check_asset_url("https://github.com/someone/else/releases/download/v1/a.exe").is_err());
    assert!(check_asset_url("http://github.com/TEGCeylonQi/bootflow/releases/download/a").is_err());
}

#[test]
fn failed_result_never_claims_up_to_date() {
    let r = UpdateCheck::failed("连接超时".into(), AT.to_string());
    assert_eq!(r.status, UpdateStatus::Failed);
    assert_eq!(r.reason.as_deref(), Some("连接超时"));
    assert_eq!(r.checked_at, AT, "检查时刻由调用方给出");
    assert!(r.latest_version.is_none());
}

#[test]
fn failed_fetch_is_reported_as_failed() {
    let r = check(Err("网络不通".to_string()), AT.to_string());
    assert_eq!(r.status, UpdateStatus::Failed);
    assert_eq!(r.reason.as_deref(), Some("网络不通"));
}

#[test]
fn http_statuses_are_explained() {
    assert!(status_problem(200).is_none());
    assert_eq!(status_problem(404).unwrap(), "GitHub 上还没有可用的发布版本");
    assert_eq!(status_problem(429).unwrap(), "GitHub 接口的访问次数已超限，请过一会儿再试");
    assert_eq!(status_problem(503).unwrap(), "GitHub 服务暂时不可用（HTTP 503）");
    assert_eq!(status_problem(302).unwrap(), "GitHub 返回了意外的状态码 HTTP 302");
}

#[test]
fn user_agent_names_version_and_repo() {
    assert_eq!(user_agent(), format!("BootFlow/{} (+https://github.com/{REPO})", current_version()));
}

const AT: &str = "2026-09-15T08:00:00Z";

fn release(tag: &str) -> GhRelease {
    GhRelease {
        tag_name: tag.to_string(),
        name: Some(format!("BootFlow {tag}")),
        body: Some("修了几个问题".to_string()),
        html_url: format!("https://github.com/{REPO}/releases/tag/{tag}"),
        published_at: Some("2026-09-15T00:00:00Z".to_string()),
        assets: vec![GhAsset {
            name: "BootFlow_0.1.1_x64-setup.exe".to_string(),
            browser_download_url: "https://github.com/x/y".to_string(),
            size: 1234,
        }],
    }
}

#[test]
fn newer_tag_is_reported_as_available() {
    let cur = current_version();
    let mut parts: Vec<u32> = cur.split('.').filter_map(|p| p.parse().ok()).collect();
    if parts.is_empty() {
        panic!("无法解析当前版本号 {cur}");
    }
    while parts.len() < 3 {
        parts.push(0);
    }
    parts[2] += 1;
    let newer = format!("v{}.{}.{}", parts[0], parts[1], parts[2]);

    let r = classify(release(&newer), AT.to_string());
    assert_eq!(r.checked_at, AT);
    assert_eq!(r.status, UpdateStatus::Available);
    assert_eq!(r.latest_version.as_deref(), Some(newer.trim_start_matches('v')));
    assert_eq!(r.current_version, cur);
    assert!(r.reason.is_none());
}

#[test]
fn same_or_older_tag_is_reported_as_up_to_date() {
    assert_eq!(classify(release("v0.1.1"), AT.to_string()).status, UpdateStatus::UpToDate);
    assert_eq!(classify(release("v0.1.0"), AT.to_string()).status, UpdateStatus::UpToDate);
}

#[test]
fn unparsable_tag_fails_instead_of_guessing() {
    let r = classify(release("latest"), AT.to_string());
    assert_eq!(r.status, UpdateStatus::Failed);
    assert!(r.reason.unwrap().contains("latest"));
}

#[test]
fn blank_release_name_is_dropped() {
    let mut rel = release("v9.0.0");
    rel.name = Some("  ".to_string());
    let r = classify(rel, AT.to_string());
    assert!(r.release_name.is_none());
    assert_eq!(r.notes.as_deref(), Some("修了几个问题"));
    assert_eq!(r.assets.len(), 1);
}

#[test]
fn newer_is_transitive_along_a_release_line() {
    let line = ["1.0.0-1", "1.0.0-alpha", "1.0.0-beta", "1.0.0-beta.1", "1.0.0-beta.2", "1.0.0-beta.10", "1.0.0-rc", "1.0.0", "1.0.1", "1.1.0"];
    for i in 0..line.len() {
        for j in 0..line.len() {
            assert_eq!(newer(line[j], line[i]), j > i, "{} vs {}", line[j], line[i]);
        }
    }
}

#[test]
fn parse_reads_back_what_to_string_wrote() {
    for text in ["0.0.0", "1.2.3", "10.20.30-beta.2", "2.0.0-rc-1", "18446744073709551615.0.1"] {
        let v = Version::parse(text).unwrap();
        assert_eq!(v.to_string(), text);
        assert_eq!(Version::parse(&v.to_string()), Some(v));
    }
}
