use diamond_dagger::api::Status;
use diamond_dagger::mojang::{
    cached_skin_path, download_skin, get_uuid, profile_from_entries, skin_download_url, uuid_lookup_url, DownloadAction,
    DownloadEvent, DownloadState, PlayerProfile, UuidAction, UuidEvent,
};

fn expect_uuid_error(a: UuidAction, msg: &str, status: Status) {
    match a {
        UuidAction::Finish(Err(e)) => {
            assert_eq!(e.0, msg);
            assert_eq!(e.1, status);
        }
        _ => panic!("expected an error"),
    }
}

#[test]
fn lookup_starts_with_the_profile_url() {
    match get_uuid("Notch", UuidEvent::Started) {
        UuidAction::Fetch(url) => {
            assert_eq!(url, "https://api.mojang.com/users/profiles/minecraft/Notch")
        }
        _ => panic!("expected a fetch"),
    }
    assert_eq!(uuid_lookup_url("x"), "https://api.mojang.com/users/profiles/minecraft/x");
}

#[test]
fn lookup_failures_before_the_body() {
    expect_uuid_error(
        get_uuid("a", UuidEvent::RequestFailed),
        "Failed to get uuid from Mojang API",
        Status::NotFound,
    );
    expect_uuid_error(
        get_uuid("a", UuidEvent::Responded(204)),
        "Failed to get uuid from Mojang API (Failed to unwrap response)",
        Status::NotFound,
    );
    assert!(matches!(get_uuid("a", UuidEvent::Responded(200)), UuidAction::ReadBody));
    expect_uuid_error(
        get_uuid("a", UuidEvent::BodyFailed),
        "Failed to read uuid response from Mojang (is it malformed?)",
        Status::InternalServerError,
    );
}

#[test]
fn lookup_reads_id_and_name() {
    let body = br#"{"id":"069a79f444e94726a5befca90e38aaf5","name":"Notch"}"#.to_vec();
    match get_uuid("notch", UuidEvent::BodyRead(body)) {
        UuidAction::Finish(Ok(p)) => assert_eq!(
            p,
            PlayerProfile {
                id: "069a79f444e94726a5befca90e38aaf5".to_string(),
                name: "Notch".to_string()
            }
        ),
        _ => panic!("expected a profile"),
    }
}

#[test]
fn lookup_reports_the_error_message() {
    let body = br#"{"error":"IllegalArgumentException","errorMessage":"Invalid timestamp."}"#.to_vec();
    expect_uuid_error(
        get_uuid("a", UuidEvent::BodyRead(body)),
        "Invalid timestamp.",
        Status::InternalServerError,
    );
}

#[test]
fn lookup_rejects_malformed_bodies() {
    for body in [&b"not json"[..], br#"{"id":5,"name":"x"}"#, br#"["id","name"]"#] {
        expect_uuid_error(
            get_uuid("a", UuidEvent::BodyRead(body.to_vec())),
            "Failed to read uuid response from Mojang (is it malformed?)",
            Status::InternalServerError,
        );
    }
}

#[test]
fn lookup_aborts_on_missing_fields() {
    assert!(matches!(get_uuid("a", UuidEvent::BodyRead(br#"{"id":"x"}"#.to_vec())), UuidAction::Abort));
    assert!(matches!(get_uuid("a", UuidEvent::BodyRead(br#"{"error":"x"}"#.to_vec())), UuidAction::Abort));
    assert!(matches!(get_uuid("a", UuidEvent::BodyRead(b"{}".to_vec())), UuidAction::Abort));
}

fn expect_download_error(r: (DownloadState, DownloadAction), msg: &str) {
    assert!(matches!(r.0, DownloadState::Done));
    match r.1 {
        DownloadAction::Finish(Err(e)) => {
            assert_eq!(e.0, msg);
            assert_eq!(e.1, Status::InternalServerError);
        }
        _ => panic!("expected an error"),
    }
}

#[test]
fn download_walks_through_its_steps() {
    let (state, action) = download_skin("abc", DownloadState::Starting, DownloadEvent::Started);
    match action {
        DownloadAction::Fetch(url) => assert_eq!(url, "https://crafatar.com/skins/abc"),
        _ => panic!(),
    }
    let (state, action) = download_skin("abc", state, DownloadEvent::Responded(200));
    assert!(matches!(action, DownloadAction::ReadBody));
    let (state, action) = download_skin("abc", state, DownloadEvent::BodyRead(vec![137, 80, 78, 71]));
    match action {
        DownloadAction::CreateFile(path) => assert_eq!(path, "./skins/cache/abc.png"),
        _ => panic!(),
    }
    let (state, action) = download_skin("abc", state, DownloadEvent::FileCreated);
    match action {
        DownloadAction::CopyBody(bytes) => assert_eq!(bytes, vec![137, 80, 78, 71]),
        _ => panic!(),
    }
    let (state, action) = download_skin("abc", state, DownloadEvent::Copied);
    assert!(matches!(state, DownloadState::Done));
    assert!(matches!(action, DownloadAction::Finish(Ok(()))));
    assert_eq!(skin_download_url("u"), "https://crafatar.com/skins/u");
    assert_eq!(cached_skin_path("u"), "./skins/cache/u.png");
}

#[test]
fn download_failures() {
    expect_download_error(
        download_skin("a", DownloadState::Fetching, DownloadEvent::RequestFailed),
        "Failed to download user skin!",
    );
    expect_download_error(
        download_skin("a", DownloadState::Fetching, DownloadEvent::Responded(404)),
        "Failed to unwrap Mojang API response!",
    );
    expect_download_error(
        download_skin("a", DownloadState::Reading, DownloadEvent::BodyFailed),
        "Failed to get byte stream!",
    );
    expect_download_error(
        download_skin("a", DownloadState::Creating(vec![1]), DownloadEvent::FileCreateFailed),
        "Failed to create file stream!",
    );
    expect_download_error(
        download_skin("a", DownloadState::Copying, DownloadEvent::CopyFailed),
        "Failed to copy skin datastream!",
    );
}

#[test]
fn answer_fields_after_the_parse() {
    let entries = vec![
        ("name".to_string(), "jeb_".to_string()),
        ("id".to_string(), "853c80ef3c3749fdaa49938b674adae6".to_string()),
    ];
    match profile_from_entries(&entries) {
        UuidAction::Finish(Ok(p)) => {
            assert_eq!(p.name, "jeb_");
            assert_eq!(p.id, "853c80ef3c3749fdaa49938b674adae6");
        }
        _ => panic!(),
    }
    let error = vec![("errorMessage".to_string(), "nope".to_string()), ("error".to_string(), "x".to_string())];
    expect_uuid_error(profile_from_entries(&error), "nope", Status::InternalServerError);
    assert!(matches!(profile_from_entries(&vec![]), UuidAction::Abort));
}
