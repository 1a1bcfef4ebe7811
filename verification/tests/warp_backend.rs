use diamond_dagger::ashcon::{profile_url, PlayerProfile, Raw, Skin, Textures, UsernameHistory};
use diamond_dagger::skin_creation::{decode_skin, SkinImage};
use diamond_dagger::warp_backend::{
    get_skin, GetSkinAction, GetSkinEvent, GetSkinState, ProfileOptions, ReplyBody,
};

fn profile(url: &str) -> PlayerProfile {
    PlayerProfile {
        uuid: "069a79f444e94726a5befca90e38aaf5".to_string(),
        username: "Notch".to_string(),
        username_history: vec![UsernameHistory { username: "Notch".to_string(), changed_at: None }],
        textures: Textures {
            custom: true,
            slim: false,
            skin: Skin { url: url.to_string(), data: String::new() },
            raw: Raw { value: String::new(), signature: String::new() },
        },
        created_at: None,
    }
}

fn solid(width: u32, height: u32, px: [u8; 4]) -> SkinImage {
    SkinImage::from_rgba(width, height, px.repeat((width * height) as usize)).unwrap()
}

fn encode(img: &SkinImage) -> Vec<u8> {
    let buffer = image::RgbaImage::from_raw(img.width, img.height, img.pixels.clone()).unwrap();
    let mut out = std::io::Cursor::new(Vec::new());
    image::DynamicImage::ImageRgba8(buffer).write_to(&mut out, image::ImageFormat::Png).unwrap();
    out.into_inner()
}

#[test]
fn ashcon_url() {
    assert_eq!(profile_url("Notch"), "https://api.ashcon.app/mojang/v2/user/Notch");
}

#[test]
fn unknown_player_gets_a_json_error() {
    let options = ProfileOptions { username: "nobody".to_string(), download: None };
    let (s, a) = get_skin(&options, GetSkinState::FetchingProfile, GetSkinEvent::Started);
    assert!(matches!(a, GetSkinAction::FetchProfile(ref u) if u == "nobody"));
    let (s, a) = get_skin(&options, s, GetSkinEvent::ProfileFetched(None));
    assert!(matches!(s, GetSkinState::Done));
    match a {
        GetSkinAction::Reply(r) => {
            assert_eq!(r.content_type, "application/json");
            assert!(r.content_disposition.is_none());
            assert!(matches!(r.body, ReplyBody::Json(ref j) if j == r#"["error: shit wrong name dude"]"#));
        }
        _ => panic!(),
    }
}

fn run(download: Option<bool>) -> diamond_dagger::warp_backend::SkinReply {
    let options = ProfileOptions { username: "Notch".to_string(), download };
    let (s, _) = get_skin(&options, GetSkinState::FetchingProfile, GetSkinEvent::Started);
    let (s, a) = get_skin(&options, s, GetSkinEvent::ProfileFetched(Some(profile("http://textures/abc"))));
    assert!(matches!(a, GetSkinAction::FetchSkin(ref u) if u == "http://textures/abc"));
    let skin_png = encode(&solid(64, 64, [250, 0, 0, 255]));
    let (s, a) = get_skin(&options, s, GetSkinEvent::SkinFetched(Some(skin_png)));
    assert!(matches!(a, GetSkinAction::ReadBase(ref p) if p == "diamonddagger.png"));
    let base = encode(&solid(64, 64, [0, 0, 250, 255]));
    let (s, a) = get_skin(&options, s, GetSkinEvent::BaseRead(Some(base)));
    assert!(matches!(s, GetSkinState::Done));
    match a {
        GetSkinAction::Reply(r) => r,
        _ => panic!("expected a reply"),
    }
}

#[test]
fn composed_skin_is_answered_as_png() {
    let r = run(None);
    assert_eq!(r.content_type, "image/png");
    assert!(r.content_disposition.is_none());
    match r.body {
        ReplyBody::Png(png) => {
            let img = decode_skin(&png).unwrap();
            assert_eq!((img.width, img.height), (64, 64));
            assert_eq!(&img.pixels[0..4], &[250, 0, 0, 255]);
            let below = 4 * (20 * 64) as usize;
            assert_eq!(&img.pixels[below..below + 4], &[0, 0, 250, 255]);
        }
        _ => panic!(),
    }
}

#[test]
fn download_asks_for_an_attachment() {
    let r = run(Some(true));
    assert_eq!(r.content_disposition.as_deref(), Some("attachment; filename=\"skin.png\""));
    assert!(run(Some(false)).content_disposition.is_none());
}

#[test]
fn broken_skin_file_stops_the_handler() {
    let options = ProfileOptions { username: "Notch".to_string(), download: None };
    let (_, a) = get_skin(&options, GetSkinState::FetchingSkin, GetSkinEvent::SkinFetched(Some(b"junk".to_vec())));
    assert!(matches!(a, GetSkinAction::Abort));
    let (_, a) = get_skin(&options, GetSkinState::FetchingSkin, GetSkinEvent::SkinFetched(None));
    assert!(matches!(a, GetSkinAction::Abort));
    let (_, a) = get_skin(&options, GetSkinState::ReadingBase(solid(1, 1, [0; 4])), GetSkinEvent::BaseRead(None));
    assert!(matches!(a, GetSkinAction::Abort));
    let (_, a) = get_skin(
        &options,
        GetSkinState::ReadingBase(solid(1, 1, [0; 4])),
        GetSkinEvent::BaseRead(Some(b"junk".to_vec())),
    );
    assert!(matches!(a, GetSkinAction::Abort));
}

#[test]
fn composed_skin_keeps_the_base_layout() {
    let options = ProfileOptions { username: "Notch".to_string(), download: None };
    let skin = encode(&solid(8, 8, [250, 0, 0, 255]));
    let (s, _) = get_skin(&options, GetSkinState::FetchingSkin, GetSkinEvent::SkinFetched(Some(skin)));
    let base = image::RgbImage::from_raw(16, 20, vec![7; 3 * 16 * 20]).unwrap();
    let mut out = std::io::Cursor::new(Vec::new());
    image::DynamicImage::ImageRgb8(base).write_to(&mut out, image::ImageFormat::Png).unwrap();
    let (_, a) = get_skin(&options, s, GetSkinEvent::BaseRead(Some(out.into_inner())));
    match a {
        GetSkinAction::Reply(r) => match r.body {
            ReplyBody::Png(png) => {
                let img = diamond_dagger::png::decode_png(&png).unwrap();
                assert_eq!(img.color, diamond_dagger::png::PngColor::Rgb8);
                assert_eq!((img.width, img.height), (16, 20));
                assert_eq!(&img.samples[0..3], &[250, 0, 0]);
                let beside = 3 * 8;
                assert_eq!(&img.samples[beside..beside + 3], &[7, 7, 7]);
                let below = 3 * (8 * 16);
                assert_eq!(&img.samples[below..below + 3], &[7, 7, 7]);
            }
            _ => panic!(),
        },
        _ => panic!("expected a reply"),
    }
}
