use maypop::cli::{
    endpoint_profile, profile_line, AudioFormat, ImageTier, VideoModel, VideoRatio,
    VideoResolution,
};
use maypop::credentials::{CredentialUser, Credentials, SavedProfile};

#[test]
fn an_explicit_url_without_a_profile_uses_no_saved_profile() {
    assert_eq!(endpoint_profile(Some("dev"), Some("https://x"), "prod"), Some("dev"));
    assert_eq!(endpoint_profile(None, None, "prod"), Some("prod"));
    assert_eq!(endpoint_profile(None, Some("https://x"), "prod"), None);
}

#[test]
fn media_options_have_wire_names() {
    assert_eq!(ImageTier::Fast.as_str(), "fast");
    assert_eq!(ImageTier::Quality.as_str(), "quality");
    assert_eq!(AudioFormat::Mp3.as_str(), "mp3");
    assert_eq!(AudioFormat::Wav.as_str(), "wav");
    assert_eq!(VideoModel::Quality.as_str(), "quality");
    assert_eq!(VideoResolution::P480.as_str(), "480p");
    assert_eq!(VideoResolution::P720.as_str(), "720p");
    assert_eq!(VideoRatio::SixteenNine.as_str(), "16:9");
    assert_eq!(VideoRatio::NineSixteen.as_str(), "9:16");
    assert_eq!(VideoRatio::FourThree.as_str(), "4:3");
    assert_eq!(VideoRatio::ThreeFour.as_str(), "3:4");
    assert_eq!(VideoRatio::OneOne.as_str(), "1:1");
    assert_eq!(VideoRatio::TwentyOneNine.as_str(), "21:9");
}

#[test]
fn profiles_are_listed_with_origin_and_username() {
    let profile = SavedProfile {
        name: "prod".into(),
        credentials: Credentials {
            api_url: "https://api.app.maypop.ai".into(),
            token: "t".into(),
            expires_at: "e".into(),
            user: CredentialUser {
                id: "i".into(),
                username: "ana".into(),
                name: None,
                email: "a@example.com".into(),
                git_user_id: String::new(),
                git_server_url: String::new(),
            },
        },
        is_default: true,
    };
    assert_eq!(
        profile_line(&profile),
        "prod (default)\thttps://api.app.maypop.ai\t@ana"
    );
}
