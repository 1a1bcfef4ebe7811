use diamond_dagger::api::{
    generate_skin, modified_skin_path, name, profile_to_json, rate_limited_error, serve_skin, skin,
    skin_download, skin_minecraft, APIError, GenerateAction, GenerateEvent, NameAction, NameEvent,
    ServeAction, ServeEvent, SkinRoute, Status,
};
use diamond_dagger::mojang::PlayerProfile;

#[test]
fn error_json_body() {
    let e = APIError("You are currently rate-limited!".to_string(), Status::Forbidden);
    assert_eq!(e.to_json(), r#"{"error":"You are currently rate-limited!"}"#);
    let quoted = APIError("say \"hi\"\n".to_string(), Status::NotFound);
    assert_eq!(quoted.to_json(), r#"{"error":"say \"hi\"\n"}"#);
}

#[test]
fn status_codes() {
    assert_eq!(Status::Forbidden.code(), 403);
    assert_eq!(Status::NotFound.code(), 404);
    assert_eq!(Status::InternalServerError.code(), 500);
}

#[test]
fn error_json_escapes_backslashes() {
    let e = APIError("a\\b".to_string(), Status::NotFound);
    assert_eq!(e.to_json(), r#"{"error":"a\\b"}"#);
    let control = APIError("a\tb\u{1}\u{1f}\u{8}\u{c}\r".to_string(), Status::NotFound);
    assert_eq!(control.to_json(), r#"{"error":"a\tb\u0001\u001f\b\f\r"}"#);
    let wide = APIError("é✓".to_string(), Status::NotFound);
    assert_eq!(wide.to_json(), "{\"error\":\"é✓\"}");
    let empty = APIError(String::new(), Status::NotFound);
    assert_eq!(empty.to_json(), r#"{"error":""}"#);
}

#[test]
fn skin_path() {
    assert_eq!(modified_skin_path("abc"), "./skins/modified/abc.png");
}

#[test]
fn name_handler() {
    match name("Notch", NameEvent::Started { limited: true }) {
        NameAction::Fail(e) => {
            assert_eq!(e.0, "You are currently rate-limited!");
            assert_eq!(e.1, Status::Forbidden);
        }
        _ => panic!(),
    }
    match name("Notch", NameEvent::Started { limited: false }) {
        NameAction::LookUp(n) => assert_eq!(n, "Notch"),
        _ => panic!(),
    }
    let p = PlayerProfile { id: "0123".to_string(), name: "Notch".to_string() };
    match name("Notch", NameEvent::LookedUp(Ok(p.clone()))) {
        NameAction::Respond(body) => assert_eq!(body, r#"{"name":"Notch","uuid":"0123"}"#),
        _ => panic!(),
    }
    assert_eq!(profile_to_json(&p), r#"{"name":"Notch","uuid":"0123"}"#);
    match name("Notch", NameEvent::LookedUp(Err(rate_limited_error()))) {
        NameAction::Fail(e) => {
            assert_eq!(e.0, "Failed to get UUID from Mojang API");
            assert_eq!(e.1, Status::NotFound);
        }
        _ => panic!(),
    }
}

#[test]
fn generate_skin_steps() {
    match generate_skin("u", GenerateEvent::Started) {
        GenerateAction::CheckExists(p) => assert_eq!(p, "./skins/modified/u.png"),
        _ => panic!(),
    }
    match generate_skin("u", GenerateEvent::Exists(true)) {
        GenerateAction::Finish(Ok(p)) => assert_eq!(p, "./skins/modified/u.png"),
        _ => panic!(),
    }
    assert!(matches!(generate_skin("u", GenerateEvent::Exists(false)), GenerateAction::Download(u) if u == "u"));
    assert!(matches!(generate_skin("u", GenerateEvent::Downloaded(Ok(()))), GenerateAction::Diamondagify(u) if u == "u"));
    let err = APIError("Failed to get byte stream!".to_string(), Status::InternalServerError);
    match generate_skin("u", GenerateEvent::Downloaded(Err(err))) {
        GenerateAction::Finish(Err(e)) => assert_eq!(e.0, "Failed to get byte stream!"),
        _ => panic!(),
    }
    match generate_skin("u", GenerateEvent::Diamondagified(Ok("elsewhere".to_string()))) {
        GenerateAction::Finish(Ok(p)) => assert_eq!(p, "./skins/modified/u.png"),
        _ => panic!(),
    }
    let err = APIError("bad png".to_string(), Status::InternalServerError);
    assert!(matches!(generate_skin("u", GenerateEvent::Diamondagified(Err(err))), GenerateAction::Finish(Err(_))));
}

#[test]
fn rate_limited_skin_routes_are_refused() {
    for route in [SkinRoute::Skin, SkinRoute::Minecraft, SkinRoute::Download] {
        match serve_skin(route, "u", ServeEvent::Started { limited: true }) {
            ServeAction::Fail(e) => {
                assert_eq!(e.0, "You are currently rate-limited!");
                assert_eq!(e.1.code(), 403);
            }
            _ => panic!(),
        }
    }
}

#[test]
fn strict_skin_route() {
    assert!(matches!(skin("u", ServeEvent::Started { limited: false }), ServeAction::Generate(u) if u == "u"));
    assert!(matches!(skin("u", ServeEvent::Generated(Ok("./skins/modified/u.png".to_string()))), ServeAction::Open(p) if p == "./skins/modified/u.png"));
    let err = APIError("Failed to download user skin!".to_string(), Status::InternalServerError);
    assert!(matches!(skin("u", ServeEvent::Generated(Err(err))), ServeAction::Fail(e) if e.0 == "Failed to download user skin!"));
    assert!(matches!(skin("u", ServeEvent::Opened(Ok(()))), ServeAction::SendFile));
    match skin("u", ServeEvent::Opened(Err("No such file or directory (os error 2)".to_string()))) {
        ServeAction::Fail(e) => {
            assert_eq!(e.0, "Skin generation failed: No such file or directory (os error 2)!");
            assert_eq!(e.1, Status::InternalServerError);
        }
        _ => panic!(),
    }
}

#[test]
fn lenient_skin_routes() {
    assert!(matches!(skin_minecraft("u", ServeEvent::Started { limited: false }), ServeAction::CheckExists(p) if p == "./skins/modified/u.png"));
    assert!(matches!(skin_minecraft("u", ServeEvent::Exists(false)), ServeAction::Download(u) if u == "u"));
    assert!(matches!(skin_minecraft("u", ServeEvent::Downloaded), ServeAction::Diamondagify(u) if u == "u"));
    assert!(matches!(skin_minecraft("u", ServeEvent::Diamondagified), ServeAction::Open(p) if p == "./skins/modified/u.png"));
    assert!(matches!(skin_minecraft("u", ServeEvent::Exists(true)), ServeAction::Open(p) if p == "./skins/modified/u.png"));
    assert!(matches!(skin_download("u", ServeEvent::Exists(true)), ServeAction::SendDownload(p) if p == "./skins/modified/u.png"));
    assert!(matches!(skin_download("u", ServeEvent::Diamondagified), ServeAction::SendDownload(p) if p == "./skins/modified/u.png"));
    assert!(matches!(skin_download("u", ServeEvent::Started { limited: false }), ServeAction::CheckExists(_)));
}
