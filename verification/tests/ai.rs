use maypop::ai::{
    audio_request, check_output, decode_media, first_image_data, image_request, output_extension,
    validate_prompt, video_request, AiError, MediaKind,
};

#[test]
fn output_validation_refuses_overwrites_and_wrong_extensions() {
    let refused = check_output("image.png", MediaKind::Image, false, true, false);
    assert!(matches!(refused, Err(AiError::OutputExists)));
    assert!(refused
        .unwrap_err()
        .message("image.png", "png", "image")
        .contains("--force"));
    assert!(check_output("image.png", MediaKind::Image, true, true, false).is_ok());
    assert!(matches!(
        check_output("image.jpg", MediaKind::Image, false, false, false),
        Err(AiError::WrongExtension)
    ));
    assert!(matches!(
        check_output("image", MediaKind::Image, false, false, false),
        Err(AiError::NoExtension)
    ));
    assert!(matches!(
        check_output("Images/dir.png", MediaKind::Image, true, true, true),
        Err(AiError::OutputIsDirectory)
    ));
}

#[test]
fn base64_media_decodes_to_bytes() {
    assert_eq!(decode_media("AAECAw==").unwrap(), vec![0u8, 1, 2, 3]);
    assert!(matches!(decode_media("not base64!"), Err(AiError::InvalidMedia)));
}

#[test]
fn prompts_and_extensions_are_checked() {
    assert!(matches!(validate_prompt("  \n"), Err(AiError::EmptyPrompt)));
    assert_eq!(output_extension("Audio/Theme.MP3").unwrap(), "mp3");
    let image = image_request(" A garden ", "hero.png", "quality", "2K", false, false, false)
        .unwrap();
    assert_eq!(image.prompt, "A garden");
    assert_eq!(image.tier, "quality");
    let audio = audio_request("loop", "theme.wav", None, false, false, false).unwrap();
    assert_eq!(audio.format, "wav");
    assert!(matches!(
        audio_request("loop", "theme.wav", Some("mp3"), false, false, false),
        Err(AiError::FormatMismatch { .. })
    ));
    assert!(matches!(
        audio_request("loop", "theme.ogg", None, false, false, false),
        Err(AiError::NotAudioPath)
    ));
    assert!(matches!(
        video_request("clouds", "intro.mp4", "fast", 20, "720p", "16:9", false, None, false, false, false),
        Err(AiError::FastVideoTooLong)
    ));
    let video = video_request(
        "clouds", "intro.mp4", "quality", 20, "720p", "21:9", true, Some(7), false, false, false,
    )
    .unwrap();
    assert_eq!(video.duration, 20);
    assert_eq!(video.ratio, "21:9");
    assert_eq!(video.seed, Some(7));
    assert_eq!(first_image_data(vec![Some("AAAA".into())]).unwrap(), "AAAA");
    assert!(matches!(first_image_data(Vec::new()), Err(AiError::NoImageData)));
}
