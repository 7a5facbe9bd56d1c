use clima_bot::bot::{accept_message, step, Action, Event, InboundMessage, State};
use clima_bot::config::Config;
use clima_bot::handlers::{clima, clima_failure, hello, hello_fallback, help, pong, prueba};
use clima_bot::reply::OutboundReply;
use clima_bot::weather::{Fetched, Report, Weather};

fn config() -> Config {
    Config { api_token: "token".to_string(), api_weather: "key".to_string() }
}

fn inbound(content: &str) -> InboundMessage {
    InboundMessage { content: content.to_string(), author: "alice".to_string(), channel: 314 }
}

fn message(content: &str) -> Event {
    Event::Message(inbound(content))
}

fn madrid() -> Weather {
    Weather {
        name: "Madrid".to_string(),
        temp: "15".to_string(),
        temp_min: "12".to_string(),
        temp_max: "18".to_string(),
        humidity: 60,
        description: "clear sky".to_string(),
    }
}

fn madrid_report(descriptions: &[&str]) -> Report {
    Report {
        name: "Madrid".to_string(),
        temp: format!("{}", 15.0_f64),
        temp_min: format!("{}", 12.0_f64),
        temp_max: format!("{}", 18.0_f64),
        humidity: 60,
        descriptions: descriptions.iter().map(|d| d.to_string()).collect(),
    }
}

fn answered(status: u16) -> Event {
    Event::WeatherFetched(Fetched::Answered {
        status,
        report: Some(madrid_report(&["clear sky", "few clouds"])),
    })
}

#[test]
fn messages_that_are_no_command_lead_to_nothing() {
    let texts = [
        "", "hello", "!", "!ping!", "!Ping", "ping", "!pong", "!climate", "!help me", " !clima",
        "Pong!", "HELP", "Hello, World!", "⚠️ No se pudo obtener el clima.",
        "User alice used the 'prueba' command in the <#1> channel",
    ];
    for text in texts {
        assert_eq!(step(&config(), State::Idle, message(text), 0), (State::Idle, Action::Nothing));
    }
}

#[test]
fn ping_is_answered_at_once_with_one_message() {
    assert_eq!(
        step(&config(), State::Idle, message("!ping"), 0),
        (State::Idle, Action::Send(OutboundReply::Text("Pong!".to_string())))
    );
    assert_eq!(step(&config(), State::Idle, message("!ping"), 99).1, Action::Send(pong()));
}

#[test]
fn help_is_answered_at_once() {
    assert_eq!(
        step(&config(), State::Idle, message("!help"), 0),
        (State::Idle, Action::Send(help()))
    );
}

#[test]
fn prueba_waits_for_its_channel() {
    let (state, action) = step(&config(), State::Idle, message("!prueba"), 0);
    assert_eq!(state, State::AwaitingChannel { author: "alice".to_string() });
    assert_eq!(action, Action::ResolveChannel { channel: 314 });
    let found = Event::ChannelResolved { channel: Some(314) };
    assert_eq!(
        step(&config(), state, found, 0),
        (
            State::Idle,
            Action::Send(OutboundReply::Text(
                "User alice used the 'prueba' command in the <#314> channel".to_string()
            ))
        )
    );
    assert_eq!(
        step(
            &config(),
            State::AwaitingChannel { author: "_bob_".to_string() },
            Event::ChannelResolved { channel: Some(9) },
            0
        ),
        (State::Idle, Action::Send(prueba("_bob_", 9)))
    );
}

#[test]
fn prueba_asks_for_the_channel_of_the_message() {
    let from = InboundMessage {
        content: "!prueba".to_string(),
        author: "carol".to_string(),
        channel: 18446744073709551615,
    };
    assert_eq!(
        step(&config(), State::Idle, Event::Message(from), 0),
        (
            State::AwaitingChannel { author: "carol".to_string() },
            Action::ResolveChannel { channel: 18446744073709551615 }
        )
    );
}

#[test]
fn prueba_without_channel_sends_nothing() {
    let (state, _) = step(&config(), State::Idle, message("!prueba"), 0);
    let failed = Event::ChannelResolved { channel: None };
    assert_eq!(step(&config(), state, failed, 0), (State::Idle, Action::Nothing));
}

#[test]
fn hello_waits_for_its_picture() {
    let (state, action) = step(&config(), State::Idle, message("!hello"), 0);
    assert_eq!(state, State::AwaitingAsset);
    assert_eq!(action, Action::LoadAsset { path: "./ferris_eyes.png".to_string() });
    assert_eq!(
        step(&config(), state, Event::AssetLoaded { loaded: true }, 1234),
        (State::Idle, Action::Send(hello(1234)))
    );
}

#[test]
fn hello_without_picture_falls_back() {
    assert_eq!(
        step(&config(), State::AwaitingAsset, Event::AssetLoaded { loaded: false }, 1234),
        (State::Idle, Action::Send(hello_fallback()))
    );
}

#[test]
fn clima_asks_the_service_for_the_city() {
    let (state, action) = step(&config(), State::Idle, message("!clima Paris"), 0);
    assert_eq!(state, State::AwaitingWeather);
    assert_eq!(
        action,
        Action::FetchWeather {
            url: "https://api.openweathermap.org/data/2.5/weather?q=Paris&appid=key&units=metric&lang=es"
                .to_string()
        }
    );
    let (_, action) = step(&config(), State::Idle, message("!clima"), 0);
    assert_eq!(
        action,
        Action::FetchWeather {
            url: "https://api.openweathermap.org/data/2.5/weather?q=Madrid&appid=key&units=metric&lang=es"
                .to_string()
        }
    );
    let (_, action) = step(&config(), State::Idle, message("!clima   "), 0);
    assert_eq!(
        action,
        Action::FetchWeather {
            url: "https://api.openweathermap.org/data/2.5/weather?q=Madrid&appid=key&units=metric&lang=es"
                .to_string()
        }
    );
}

#[test]
fn clima_cannot_add_to_the_request() {
    let expect = |content: &str, q: &str| {
        let (state, action) = step(&config(), State::Idle, message(content), 0);
        assert_eq!(state, State::AwaitingWeather);
        assert_eq!(
            action,
            Action::FetchWeather {
                url: format!(
                    "https://api.openweathermap.org/data/2.5/weather?q={}&appid=key&units=metric&lang=es",
                    q
                )
            }
        );
    };
    expect("!clima Paris&appid=X", "Paris%26appid%3DX");
    expect("!clima a#b", "a%23b");
    expect("!clima 100%", "100%25");
    expect("!clima x&units=imperial", "x%26units%3Dimperial");
    expect("!clima x&lang=en#", "x%26lang%3Den%23");
}

#[test]
fn clima_shows_what_the_service_said() {
    assert_eq!(
        step(&config(), State::AwaitingWeather, answered(200), 77),
        (State::Idle, Action::Send(clima(&madrid(), 77)))
    );
    match step(&config(), State::AwaitingWeather, answered(200), 77).1 {
        Action::Send(OutboundReply::Rich { content, embed, attachment }) => {
            assert_eq!(content, None);
            assert_eq!(attachment, None);
            assert_eq!(embed.title, "☁️ Clima en Madrid");
            let values: Vec<&str> = embed.fields.iter().map(|f| f.value.as_str()).collect();
            assert_eq!(values, ["15°C", "12°C", "18°C", "60%", "clear sky"]);
            assert_eq!(embed.timestamp, Some(77));
        }
        other => panic!("not an embed: {:?}", other),
    }
}

#[test]
fn clima_apologises_when_the_service_fails() {
    let apology = || {
        (
            State::Idle,
            Action::Send(OutboundReply::Text("⚠️ No se pudo obtener el clima.".to_string())),
        )
    };
    let unreachable = Event::WeatherFetched(Fetched::Unreachable);
    assert_eq!(step(&config(), State::AwaitingWeather, unreachable, 77), apology());
    for status in [199, 300, 302, 400, 401, 404, 500, 502] {
        assert_eq!(step(&config(), State::AwaitingWeather, answered(status), 77), apology());
    }
    let malformed = Event::WeatherFetched(Fetched::Answered { status: 200, report: None });
    assert_eq!(step(&config(), State::AwaitingWeather, malformed, 77), apology());
    let nothing_described = Event::WeatherFetched(Fetched::Answered {
        status: 200,
        report: Some(madrid_report(&[])),
    });
    assert_eq!(step(&config(), State::AwaitingWeather, nothing_described, 77), apology());
    for humidity in [101, 200, 255] {
        let mut report = madrid_report(&["clear sky"]);
        report.humidity = humidity;
        let too_humid =
            Event::WeatherFetched(Fetched::Answered { status: 200, report: Some(report) });
        assert_eq!(step(&config(), State::AwaitingWeather, too_humid, 77), apology());
    }
    assert_eq!(
        clima_failure(),
        OutboundReply::Text("⚠️ No se pudo obtener el clima.".to_string())
    );
}

#[test]
fn reports_nobody_waits_for_end_the_handling() {
    let c = config();
    assert_eq!(
        step(&c, State::Idle, Event::ChannelResolved { channel: Some(1) }, 0),
        (State::Idle, Action::Nothing)
    );
    assert_eq!(
        step(&c, State::Idle, Event::AssetLoaded { loaded: true }, 0),
        (State::Idle, Action::Nothing)
    );
    assert_eq!(step(&c, State::Idle, answered(200), 0), (State::Idle, Action::Nothing));
    assert_eq!(
        step(&c, State::AwaitingWeather, Event::AssetLoaded { loaded: true }, 0),
        (State::Idle, Action::Nothing)
    );
    assert_eq!(
        step(&c, State::AwaitingAsset, message("!ping"), 0),
        (State::Idle, Action::Nothing)
    );
    assert_eq!(
        step(
            &c,
            State::AwaitingChannel { author: "a".to_string() },
            Event::WeatherFetched(Fetched::Unreachable),
            0
        ),
        (State::Idle, Action::Nothing)
    );
}

#[test]
fn every_handling_ends_within_two_steps() {
    let c = config();
    let seconds = [
        || Event::ChannelResolved { channel: Some(5) },
        || Event::ChannelResolved { channel: None },
        || Event::AssetLoaded { loaded: true },
        || Event::AssetLoaded { loaded: false },
        || Event::WeatherFetched(Fetched::Unreachable),
    ];
    for content in ["!ping", "!prueba", "!hello", "!help", "!clima", "!clima Roma", "nothing"] {
        for second in seconds {
            let (state, action) = step(&c, State::Idle, message(content), 0);
            let done = matches!(action, Action::Nothing | Action::Send(_));
            assert_eq!(done, state == State::Idle);
            if !done {
                let (state, action) = step(&c, state, second(), 0);
                assert_eq!(state, State::Idle);
                assert!(matches!(action, Action::Nothing | Action::Send(_)));
            }
        }
    }
}

#[test]
fn accept_message_is_the_first_step() {
    let c = config();
    for content in ["!ping", "!prueba", "!hello", "!help", "!clima Roma", "nothing"] {
        assert_eq!(
            accept_message(&c, &inbound(content)),
            step(&c, State::Idle, message(content), 0)
        );
    }
}
