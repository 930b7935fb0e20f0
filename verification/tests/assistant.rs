use thugsrf::ai::{
    answer, api_shape, check_endpoint, check_inputs, check_model, check_response, data_url,
    endpoint_permitted, endpoint_url, image_attachment, image_mime, prompt, request, request_body, AiError,
    ApiShape, RequestPart, INSTRUCTION,
};
use thugsrf::json::Json;
use thugsrf::config::Config;
use thugsrf::listening::{
    add_channel, check_audio, presets, shows_rds, starter_channels, validate_channels, Channel,
    ChannelError, ListenError, Rds, RdsValue,
};

#[test]
fn provider_endpoints_and_attachments() {
    for p in ["openai", "anthropic", "local"] {
        let url = endpoint_url(p, "http://127.0.0.1:11434/v1/");
        assert!(url.starts_with("http"));
        assert_eq!(check_endpoint(p, &url), Ok(()));
    }
    assert_eq!(endpoint_url("openai", ""), "https://api.openai.com/v1/responses");
    assert_eq!(endpoint_url("anthropic", ""), "https://api.anthropic.com/v1/messages");
    assert_eq!(endpoint_url("local", "http://host:1/v1//"), "http://host:1/v1/chat/completions");
    assert_eq!(data_url("image/png", "AA=="), "data:image/png;base64,AA==");
    let (mime, data) = image_attachment(b"\x89PNG\r\n\x1a\nrest").unwrap();
    assert_eq!(mime, "image/png");
    assert_eq!(data, "iVBORw0KGgpyZXN0");
    assert_eq!(image_attachment(&[0xff, 0xd8, 0xff, 0]).unwrap(), ("image/jpeg", "/9j/AA==".to_string()));
    assert_eq!(image_mime(b"GIF89a"), Err(AiError::NotImage));
    assert_eq!(image_mime(&vec![0u8; 10 * 1024 * 1024 + 1]), Err(AiError::ImageTooLarge));
}

#[test]
fn endpoints_must_be_secure_unless_local_loopback() {
    assert_eq!(check_endpoint("local", "http://localhost:8080/x"), Ok(()));
    assert_eq!(check_endpoint("local", "http://[::1]:8080/x"), Ok(()));
    assert_eq!(check_endpoint("local", "http://192.168.1.2/x"), Err(AiError::InsecureEndpoint));
    assert_eq!(check_endpoint("openai", "http://localhost/x"), Err(AiError::InsecureEndpoint));
    assert_eq!(check_endpoint("local", "not a url"), Err(AiError::InvalidEndpoint));
    assert!(endpoint_permitted("local", "http", Some("::1")));
    assert!(!endpoint_permitted("local", "http", None));
}

#[test]
fn questions_and_answers() {
    assert_eq!(check_inputs(false, false), Err(AiError::NoInput));
    assert_eq!(check_inputs(false, true), Ok(()));
    assert_eq!(check_model("  "), Err(AiError::NoModel));
    assert_eq!(check_model("m"), Ok(()));
    let p = prompt("what?", "null");
    assert!(p.starts_with(INSTRUCTION));
    assert!(p.ends_with("\nResearch question: what?\nMeasured signal features: null"));
    assert_eq!(check_response(2_097_153, true), Err(AiError::ResponseTooLarge));
    assert_eq!(check_response(10, false), Err(AiError::HttpStatus));
    assert_eq!(check_response(2_097_152, true), Ok(()));
    assert_eq!(answer(&vec!["a".into(), "b".into()]), Ok("a\nb".to_string()));
    assert_eq!(answer(&vec![" ".into()]), Err(AiError::NoText));
    assert_eq!(answer(&vec![]), Err(AiError::NoText));
}

fn channel(name: &str, rx: u64, mode: &str, bandwidth: u32, ctcss: f64) -> Channel {
    Channel {
        name: name.into(),
        rx_hz: rx,
        tx_hz: None,
        ctcss_bits: ctcss.to_bits(),
        mode: mode.into(),
        bandwidth,
        source: String::new(),
    }
}

#[test]
fn channel_directories_are_validated() {
    assert_eq!(validate_channels(&starter_channels()), Ok(()));
    assert_eq!(validate_channels(&presets()), Ok(()));
    assert_eq!(presets().len(), 6);
    assert_eq!(presets()[0].name, "FM broadcast");
    assert_eq!(starter_channels()[1].tx_hz, Some(433_500_000));
    let ok = channel("x", 145_000_000, "nfm", 12_500, 88.5);
    assert_eq!(validate_channels(&vec![ok]), Ok(()));
    assert_eq!(validate_channels(&vec![channel(" ", 145_000_000, "fm", 12_500, 0.0)]), Err(ChannelError::NameOrReceive));
    let mut tx = channel("x", 145_000_000, "fm", 12_500, 0.0);
    tx.tx_hz = Some(7_000_000_000);
    assert_eq!(validate_channels(&vec![tx]), Err(ChannelError::Transmit));
    assert_eq!(validate_channels(&vec![channel("x", 145_000_000, "usb", 12_500, 0.0)]), Err(ChannelError::ModeOrBandwidth));
    assert_eq!(validate_channels(&vec![channel("x", 145_000_000, "fm", 12_500, 59.9)]), Err(ChannelError::Tone));
    assert_eq!(validate_channels(&vec![channel("x", 145_000_000, "fm", 12_500, -0.0)]), Ok(()));
    assert_eq!(validate_channels(&vec![channel("x", 145_000_000, "fm", 12_500, f64::NAN)]), Err(ChannelError::Tone));
    let many: Vec<Channel> = (0..2001).map(|_| channel("x", 145_000_000, "fm", 12_500, 0.0)).collect();
    assert_eq!(validate_channels(&many), Err(ChannelError::TooMany));
    let mut rows = starter_channels();
    assert_eq!(add_channel(&mut rows, channel("y", 500_000, "fm", 12_500, 0.0)), Err(ChannelError::NameOrReceive));
    assert_eq!(rows.len(), 3);
}

#[test]
fn audio_worker_rules() {
    let c = Config::default();
    assert_eq!(check_audio(&c, 60, false, 0, false), Ok(()));
    assert_eq!(check_audio(&c, 60, true, 0, true), Err(ListenError::LiveTransmit));
    assert_eq!(check_audio(&c, 0, false, 0, false), Err(ListenError::Duration));
    assert_eq!(check_audio(&c, 61, true, 0, false), Err(ListenError::Transmit));
    assert_eq!(check_audio(&c, 60, true, 67.0f64.to_bits(), false), Ok(()));
    assert_eq!(check_audio(&c, 60, false, 300.0f64.to_bits(), false), Err(ListenError::Tone));
    let mut audio = Config::default();
    audio.device = "audio".into();
    audio.sample_rate = 48_000;
    assert_eq!(check_audio(&audio, 60, false, 0, false), Err(ListenError::Device));
    assert!(shows_rds("wfm", false));
    assert!(!shows_rds("wfm", true));
}

fn text(s: &str) -> Option<RdsValue> {
    Some(RdsValue::Text(s.into()))
}

fn event() -> Rds {
    Rds::new()
}

#[test]
fn rds_station_data() {
    let mut state = Rds::new();
    assert_eq!(state.summary(), "RDS: waiting for station data…");
    let mut e = event();
    e.pi = text("D3C3");
    e.ps = text("RADIO\u{7}1");
    state.absorb(&e);
    assert_eq!(state.summary(), "RDS: RADIO1 · D3C3");
    let mut e = event();
    e.radiotext = text("News");
    e.ta = Some(RdsValue::Flag(true));
    state.absorb(&e);
    assert_eq!(state.summary(), "RDS: RADIO1 · D3C3 · News · TRAFFIC");
    let mut e = event();
    e.pi = text("D3C3");
    state.absorb(&e);
    assert_eq!(state.summary(), "RDS: RADIO1 · D3C3 · News · TRAFFIC");
    let mut e = event();
    e.pi = text("1234");
    state.absorb(&e);
    assert_eq!(state.summary(), "RDS: 1234");
    let mut e = event();
    e.rds_status = text("no RDS carrier");
    state.absorb(&e);
    assert_eq!(state.summary(), "no RDS carrier");
}

#[test]
fn provider_payloads() {
    let mut c = Config::default();
    for p in ["openai", "anthropic", "local"] {
        c.ai_provider = p.into();
        let url = endpoint_url(&c.ai_provider, &c.local_url);
        let r = request(&c.ai_provider, &c.ai_model, "test", Some(("image/png", "AA==")));
        assert!(url.starts_with("http"));
        assert_eq!(r.model, c.ai_model);
        assert_eq!(r.parts.len(), 2);
        assert_eq!(r.parts[0], RequestPart::Prompt("test".to_string()));
        let v = request_body(&r);
        if p == "openai" {
            assert_eq!(at(&v, "store"), &Json::Bool(false));
            assert_eq!(at(nth(at(nth(at(&v, "input"), 0), "content"), 1), "type"), &Json::Text("input_image".into()));
        } else {
            assert_eq!(list_len(at(nth(at(&v, "messages"), 0), "content")), 2);
        }
        if p == "openai" {
            assert_eq!(r.shape, ApiShape::Responses);
            assert_eq!(r.parts[1], RequestPart::ImageUrl("data:image/png;base64,AA==".to_string()));
        } else if p == "anthropic" {
            assert_eq!(r.shape, ApiShape::Messages);
            assert_eq!(r.parts[1], RequestPart::Base64Image("image/png".to_string(), "AA==".to_string()));
        } else {
            assert_eq!(r.shape, ApiShape::ChatCompletions);
            assert_eq!(r.parts[1], RequestPart::ImageUrl("data:image/png;base64,AA==".to_string()));
        }
    }
    assert_eq!(api_shape("something else"), ApiShape::ChatCompletions);
    assert_eq!(request("openai", "m", "q", None).parts, vec![RequestPart::Prompt("q".to_string())]);
}

fn at<'a>(j: &'a Json, key: &str) -> &'a Json {
    match j {
        Json::Object(fields) => &fields.iter().find(|(k, _)| k == key).expect("member").1,
        _ => panic!("not an object"),
    }
}

fn nth(j: &Json, i: usize) -> &Json {
    match j {
        Json::List(items) => &items[i],
        _ => panic!("not a list"),
    }
}

fn list_len(j: &Json) -> usize {
    match j {
        Json::List(items) => items.len(),
        _ => panic!("not a list"),
    }
}

#[test]
fn request_bodies_follow_each_api() {
    let openai = request_body(&request("openai", "model-a", "q", Some(("image/png", "AA=="))));
    assert_eq!(at(&openai, "model"), &Json::Text("model-a".into()));
    let part = nth(at(nth(at(&openai, "input"), 0), "content"), 0);
    assert_eq!(at(part, "type"), &Json::Text("input_text".into()));
    assert_eq!(at(part, "text"), &Json::Text("q".into()));
    let image = nth(at(nth(at(&openai, "input"), 0), "content"), 1);
    assert_eq!(at(image, "image_url"), &Json::Text("data:image/png;base64,AA==".into()));
    let anthropic = request_body(&request("anthropic", "model-b", "q", Some(("image/jpeg", "BB=="))));
    assert_eq!(at(&anthropic, "max_tokens"), &Json::Number("2048".into()));
    let message = nth(at(&anthropic, "messages"), 0);
    assert_eq!(at(message, "role"), &Json::Text("user".into()));
    let source = at(nth(at(message, "content"), 1), "source");
    assert_eq!(at(source, "type"), &Json::Text("base64".into()));
    assert_eq!(at(source, "media_type"), &Json::Text("image/jpeg".into()));
    assert_eq!(at(source, "data"), &Json::Text("BB==".into()));
    let local = request_body(&request("local", "model-c", "q", Some(("image/png", "AA=="))));
    assert_eq!(at(&local, "stream"), &Json::Bool(false));
    let image = nth(at(nth(at(&local, "messages"), 0), "content"), 1);
    assert_eq!(at(image, "type"), &Json::Text("image_url".into()));
    assert_eq!(at(at(image, "image_url"), "url"), &Json::Text("data:image/png;base64,AA==".into()));
    assert_eq!(list_len(at(nth(at(&local, "messages"), 0), "content")), 2);
    let plain = request_body(&request("local", "model-c", "q", None));
    assert_eq!(list_len(at(nth(at(&plain, "messages"), 0), "content")), 1);
}
