use clima_bot::escape::{char_is_markup, escape_markup};
use clima_bot::handlers::{
    clima, clima_failure, hello, hello_fallback, help, pong, prueba, ready_banner,
};
use clima_bot::query::{char_is_unreserved, percent_encode, push_pair};
use clima_bot::reply::{Embed, EmbedField, OutboundReply};
use clima_bot::weather::{weather_url, FetchError, Fetched, Report, Weather};

fn report(name: &str, temps: [f64; 3], humidity: u8, descriptions: &[&str]) -> Report {
    Report {
        name: name.to_string(),
        temp: format!("{}", temps[0]),
        temp_min: format!("{}", temps[1]),
        temp_max: format!("{}", temps[2]),
        humidity,
        descriptions: descriptions.iter().map(|d| d.to_string()).collect(),
    }
}

fn madrid_report() -> Report {
    report("Madrid", [15.0, 12.0, 18.0], 60, &["clear sky"])
}

fn madrid() -> Weather {
    Weather::from_report(madrid_report()).unwrap()
}

fn field(name: &str, value: &str, inline: bool) -> EmbedField {
    EmbedField { name: name.to_string(), value: value.to_string(), inline }
}

#[test]
fn ping_gets_pong() {
    assert_eq!(pong(), OutboundReply::Text("Pong!".to_string()));
}

#[test]
fn help_goes_to_the_author_in_private() {
    assert_eq!(help(), OutboundReply::Direct("HELP".to_string()));
}

#[test]
fn prueba_names_author_and_channel() {
    assert_eq!(
        prueba("alice", 42),
        OutboundReply::Text(
            "User alice used the 'prueba' command in the <#42> channel".to_string()
        )
    );
    assert_eq!(
        prueba("", 0),
        OutboundReply::Text("User  used the 'prueba' command in the <#0> channel".to_string())
    );
    assert_eq!(
        prueba("bob", 1234567890123456789),
        OutboundReply::Text(
            "User bob used the 'prueba' command in the <#1234567890123456789> channel".to_string()
        )
    );
}

#[test]
fn prueba_escapes_the_author() {
    assert_eq!(
        prueba("**bold** @everyone", 7),
        OutboundReply::Text(
            "User \\*\\*bold\\*\\* \\@\u{200B}everyone used the 'prueba' command in the <#7> channel"
                .to_string()
        )
    );
    assert_eq!(
        prueba("<#99> channel", 7),
        OutboundReply::Text(
            "User \\<\\#99\\> channel used the 'prueba' command in the <#7> channel".to_string()
        )
    );
    assert_eq!(
        prueba("two\nlines", 7),
        OutboundReply::Text(
            "User two lines used the 'prueba' command in the <#7> channel".to_string()
        )
    );
}

#[test]
fn escaping_guards_every_markup_character() {
    assert_eq!(escape_markup(""), "");
    assert_eq!(escape_markup("plain name 123"), "plain name 123");
    assert_eq!(escape_markup("a*b"), "a\\*b");
    assert_eq!(escape_markup("\\"), "\\\\");
    assert_eq!(
        escape_markup("_~`|><@#:[]()"),
        "\\_\\~\\`\\|\\>\\<\\@\u{200B}\\#\\:\\[\\]\\(\\)"
    );
    assert_eq!(escape_markup("@"), "\\@\u{200B}");
    assert_eq!(escape_markup("a@b"), "a\\@\u{200B}b");
    assert_eq!(escape_markup("@\u{200B}x"), "\\@\u{200B}\u{200B}x");
    assert_eq!(escape_markup("a\r\nb"), "a  b");
    assert_eq!(escape_markup("ñandú ☁"), "ñandú ☁");
    assert_eq!(escape_markup("[x](http://y)"), "\\[x\\]\\(http\\://y\\)");
}

#[test]
fn escaped_text_has_no_bare_markup() {
    let names = ["*", "a**b__c", "\\*", "\\\\", "<@1>", "x\ny", "||s||", "`c` > q", "@here:"];
    for name in names {
        let escaped: Vec<char> = escape_markup(name).chars().collect();
        let mut i = 0;
        while i < escaped.len() {
            let c = escaped[i];
            assert!(c != '\n' && c != '\r');
            if c == '\\' {
                assert!(i + 1 < escaped.len() && char_is_markup(escaped[i + 1]));
                if escaped[i + 1] == '@' {
                    assert!(i + 2 < escaped.len() && escaped[i + 2] == '\u{200B}');
                    i += 3;
                } else {
                    i += 2;
                }
            } else {
                assert!(!char_is_markup(c), "bare {:?} in {:?}", c, escaped);
                i += 1;
            }
        }
    }
}

#[test]
fn escaped_text_reads_as_the_name() {
    let names = [
        "", "alice", "a*b", "\\*", "<@1> said: hi", "x\ny\rz", "ñ_ñ", "((:[]:))", "\\\\",
        "@everyone", "@@", "@\u{200B}", "\\@",
    ];
    for name in names {
        let escaped: Vec<char> = escape_markup(name).chars().collect();
        let mut read = String::new();
        let mut i = 0;
        while i < escaped.len() {
            if escaped[i] == '\\' && i + 1 < escaped.len() {
                read.push(escaped[i + 1]);
                i += if escaped[i + 1] == '@' { 3 } else { 2 };
            } else {
                read.push(escaped[i]);
                i += 1;
            }
        }
        let flat: String =
            name.chars().map(|c| if c == '\n' || c == '\r' { ' ' } else { c }).collect();
        assert_eq!(read, flat);
    }
}

#[test]
fn escaped_text_mentions_nobody() {
    let names = [
        "@everyone", "@here", "x@everyone", "@@here", "\\@everyone", "@\u{200B}here",
        "hi @everyone and @here", "@Everyone", "<@&1>",
    ];
    for name in names {
        let escaped = escape_markup(name);
        assert!(!escaped.contains("@everyone"), "in {:?}", escaped);
        assert!(!escaped.contains("@here"), "in {:?}", escaped);
        let chars: Vec<char> = escaped.chars().collect();
        for i in 0..chars.len() {
            if chars[i] == '@' {
                assert_eq!(chars[i - 1], '\\');
                assert_eq!(chars[i + 1], '\u{200B}');
            }
        }
    }
    assert_eq!(escape_markup("@everyone"), "\\@\u{200B}everyone");
    assert_eq!(escape_markup("@here"), "\\@\u{200B}here");
}

#[test]
fn a_report_with_a_humidity_above_a_hundred_is_a_failure() {
    for humidity in [101, 102, 150, 200, 254, 255] {
        let r = Weather::from_report(report("Madrid", [15.0, 12.0, 18.0], humidity, &["x"]));
        assert_eq!(r, Err(FetchError), "for {}", humidity);
        let fetched = Fetched::Answered {
            status: 200,
            report: Some(report("Madrid", [15.0, 12.0, 18.0], humidity, &["x"])),
        };
        assert_eq!(Weather::from_fetched(fetched), Err(FetchError), "for {}", humidity);
    }
    for humidity in [0, 1, 50, 99, 100] {
        let w = Weather::from_report(report("Madrid", [15.0, 12.0, 18.0], humidity, &["x"]))
            .unwrap();
        assert_eq!(w.humidity, humidity);
    }
    let mut humidity = 0u8;
    loop {
        let r = Weather::from_report(report("Madrid", [15.0, 12.0, 18.0], humidity, &["x"]));
        assert_eq!(r.is_ok(), humidity <= 100);
        if humidity == u8::MAX {
            break;
        }
        humidity += 1;
    }
}

#[test]
fn markup_characters_are_the_listed_ones() {
    let listed = "\\*_~`|><@#:[]()";
    let mut c = 0u32;
    while c <= 0x10FFFF {
        if let Some(ch) = char::from_u32(c) {
            assert_eq!(char_is_markup(ch), listed.contains(ch), "for U+{:04X}", c);
        }
        c += 1;
    }
}

#[test]
fn hello_sends_text_embed_and_picture() {
    let expected = OutboundReply::Rich {
        content: Some("Hello, World!".to_string()),
        embed: Embed {
            title: "This is a title".to_string(),
            description: Some("This is a description".to_string()),
            fields: vec![
                field("This is the first field", "This is a field body", true),
                field("This is the second field", "Both fields are inline", true),
                field("This is the third field", "This is not an inline field", false),
            ],
            footer: Some("This is a footer".to_string()),
            image: Some("attachment://ferris_eyes.png".to_string()),
            timestamp: Some(1_700_000_000),
        },
        attachment: Some("./ferris_eyes.png".to_string()),
    };
    assert_eq!(hello(1_700_000_000), expected);
}

#[test]
fn hello_has_two_inline_fields_and_one_that_is_not() {
    match hello(0) {
        OutboundReply::Rich { embed, .. } => {
            assert_eq!(embed.fields.len(), 3);
            assert_eq!(embed.fields.iter().filter(|f| f.inline).count(), 2);
            assert_eq!(embed.timestamp, Some(0));
        }
        other => panic!("not an embed: {:?}", other),
    }
}

#[test]
fn hello_without_picture_apologises() {
    assert_eq!(
        hello_fallback(),
        OutboundReply::Text("⚠️ No se pudo cargar la imagen.".to_string())
    );
}

#[test]
fn clima_shows_the_weather() {
    let expected = OutboundReply::Rich {
        content: None,
        embed: Embed {
            title: "☁️ Clima en Madrid".to_string(),
            description: None,
            fields: vec![
                field("🌡 Temperatura", "15°C", true),
                field("📉 Mínima", "12°C", true),
                field("📈 Máxima", "18°C", true),
                field("💧 Humedad", "60%", true),
                field("🌤 Estado", "clear sky", false),
            ],
            footer: Some("Datos de OpenWeather".to_string()),
            image: None,
            timestamp: Some(-5),
        },
        attachment: None,
    };
    assert_eq!(clima(&madrid(), -5), expected);
}

#[test]
fn clima_embed_contains_every_value() {
    let shown = format!("{:?}", clima(&madrid(), 0));
    for part in ["Madrid", "15°C", "12°C", "18°C", "60%", "clear sky"] {
        assert!(shown.contains(part), "{} is missing", part);
    }
}

#[test]
fn clima_renders_fractions_and_extremes() {
    let weather =
        Weather::from_report(report("Oymyakon", [-50.25, -61.5, 0.0], 100, &["nieve", "niebla"]))
            .unwrap();
    match clima(&weather, 1) {
        OutboundReply::Rich { embed, .. } => {
            assert_eq!(embed.fields[0].value, "-50.25°C");
            assert_eq!(embed.fields[1].value, "-61.5°C");
            assert_eq!(embed.fields[2].value, "0°C");
            assert_eq!(embed.fields[3].value, "100%");
            assert_eq!(embed.fields[4].value, "nieve");
        }
        other => panic!("not an embed: {:?}", other),
    }
}

#[test]
fn clima_failure_is_a_fixed_text() {
    assert_eq!(
        clima_failure(),
        OutboundReply::Text("⚠️ No se pudo obtener el clima.".to_string())
    );
}

#[test]
fn a_report_without_description_is_a_failure() {
    let r = Weather::from_report(report("Madrid", [15.0, 12.0, 18.0], 60, &[]));
    assert_eq!(r, Err(FetchError));
}

#[test]
fn only_a_successful_answer_with_a_report_gives_the_weather() {
    for status in [200, 201, 204, 250, 299] {
        let fetched = Fetched::Answered { status, report: Some(madrid_report()) };
        assert_eq!(Weather::from_fetched(fetched), Ok(madrid()));
    }
    for status in [0, 100, 199, 300, 301, 304, 400, 401, 404, 429, 500, 503, u16::MAX] {
        let fetched = Fetched::Answered { status, report: Some(madrid_report()) };
        assert_eq!(Weather::from_fetched(fetched), Err(FetchError));
        let fetched = Fetched::Answered { status, report: None };
        assert_eq!(Weather::from_fetched(fetched), Err(FetchError));
    }
    assert_eq!(
        Weather::from_fetched(Fetched::Answered { status: 200, report: None }),
        Err(FetchError)
    );
    assert_eq!(
        Weather::from_fetched(Fetched::Answered {
            status: 200,
            report: Some(report("Madrid", [15.0, 12.0, 18.0], 60, &[])),
        }),
        Err(FetchError)
    );
    assert_eq!(Weather::from_fetched(Fetched::Unreachable), Err(FetchError));
}

#[test]
fn a_report_keeps_its_first_description() {
    let w = Weather::from_report(report("Lima", [20.5, 19.0, 22.0], 0, &["nubes", "lluvia"]))
        .unwrap();
    assert_eq!(
        w,
        Weather {
            name: "Lima".to_string(),
            temp: "20.5".to_string(),
            temp_min: "19".to_string(),
            temp_max: "22".to_string(),
            humidity: 0,
            description: "nubes".to_string(),
        }
    );
}

#[test]
fn weather_url_holds_city_and_key() {
    assert_eq!(
        weather_url("Madrid", "k3y"),
        "https://api.openweathermap.org/data/2.5/weather?q=Madrid&appid=k3y&units=metric&lang=es"
    );
    assert_eq!(
        weather_url("", ""),
        "https://api.openweathermap.org/data/2.5/weather?q=&appid=&units=metric&lang=es"
    );
}

#[test]
fn weather_url_encodes_what_could_end_a_value() {
    let base = "https://api.openweathermap.org/data/2.5/weather";
    assert_eq!(
        weather_url("Paris&appid=X", "K"),
        format!("{}?q=Paris%26appid%3DX&appid=K&units=metric&lang=es", base)
    );
    assert_eq!(
        weather_url("a#b", "K"),
        format!("{}?q=a%23b&appid=K&units=metric&lang=es", base)
    );
    assert_eq!(
        weather_url("100%", "K"),
        format!("{}?q=100%25&appid=K&units=metric&lang=es", base)
    );
    assert_eq!(
        weather_url("x&units=imperial", "K"),
        format!("{}?q=x%26units%3Dimperial&appid=K&units=metric&lang=es", base)
    );
    assert_eq!(
        weather_url("Paris", "X&appid=K"),
        format!("{}?q=Paris&appid=X%26appid%3DK&units=metric&lang=es", base)
    );
    assert_eq!(
        weather_url("a?b+c/d", "k e y"),
        format!("{}?q=a%3Fb%2Bc%2Fd&appid=k%20e%20y&units=metric&lang=es", base)
    );
    assert_eq!(
        weather_url("München", "K"),
        format!("{}?q=M%C3%BCnchen&appid=K&units=metric&lang=es", base)
    );
}

fn decode(text: &str) -> String {
    let chars: Vec<char> = text.chars().collect();
    let mut bytes: Vec<u8> = Vec::new();
    let mut i = 0;
    while i < chars.len() {
        if chars[i] == '%' && i + 2 < chars.len() {
            let high = chars[i + 1].to_digit(16).unwrap();
            let low = chars[i + 2].to_digit(16).unwrap();
            bytes.push((16 * high + low) as u8);
            i += 3;
        } else {
            bytes.push(chars[i] as u8);
            i += 1;
        }
    }
    String::from_utf8(bytes).unwrap()
}

fn read_request(address: &str) -> (String, Vec<(String, String)>) {
    let main = address.split('#').next().unwrap();
    let (base, query) = main.split_once('?').unwrap_or((main, ""));
    let pairs = query
        .split('&')
        .map(|piece| {
            let (name, value) = piece.split_once('=').unwrap_or((piece, ""));
            (name.to_string(), decode(value))
        })
        .collect();
    (base.to_string(), pairs)
}

#[test]
fn the_request_reads_as_its_four_pairs() {
    let cities = [
        "Madrid", "Paris&appid=X", "a#b", "100%", "x&units=imperial", "x#", "?q=y", "a=b=c",
        "%26", "São", "東京&lang=en", "+", "&", "=", "#", "&&==##??",
    ];
    let keys = ["K", "k&q=Oslo", "#", "a=b", "ñ%"];
    for city in cities {
        for key in keys {
            let (base, pairs) = read_request(&weather_url(city, key));
            assert_eq!(base, "https://api.openweathermap.org/data/2.5/weather");
            let expected = [("q", city), ("appid", key), ("units", "metric"), ("lang", "es")];
            assert_eq!(pairs.len(), 4, "for {:?} and {:?}", city, key);
            for (found, wanted) in pairs.iter().zip(expected) {
                assert_eq!((found.0.as_str(), found.1.as_str()), wanted);
            }
        }
    }
}

#[test]
fn percent_encoding_keeps_unreserved_characters_only() {
    assert_eq!(percent_encode(""), "");
    assert_eq!(percent_encode("AZaz09-._~"), "AZaz09-._~");
    assert_eq!(percent_encode("&=#?%+ "), "%26%3D%23%3F%25%2B%20");
    assert_eq!(percent_encode("!*'();:@$,/[]"), "%21%2A%27%28%29%3B%3A%40%24%2C%2F%5B%5D");
    assert_eq!(percent_encode("\u{0}\u{7f}"), "%00%7F");
    assert_eq!(percent_encode("ñ"), "%C3%B1");
    assert_eq!(percent_encode("東京"), "%E6%9D%B1%E4%BA%AC");
    assert_eq!(percent_encode("☁️"), "%E2%98%81%EF%B8%8F");
    assert_eq!(percent_encode("😀"), "%F0%9F%98%80");
    assert_eq!(percent_encode("\u{10FFFF}"), "%F4%8F%BF%BF");
}

#[test]
fn percent_encoded_text_is_safe_and_decodes_back() {
    let values = ["", "Madrid", "Paris&appid=X", "a#b", "100%", "%41", "São Paulo", "東京?", "=&=&"];
    for value in values {
        let encoded = percent_encode(value);
        assert!(encoded.chars().all(|c| char_is_unreserved(c) || c == '%'));
        assert_eq!(decode(&encoded), value);
    }
}

#[test]
fn unreserved_characters_are_the_listed_ones() {
    let listed = "ABCDEFGHIJKLMNOPQRSTUVWXYZabcdefghijklmnopqrstuvwxyz0123456789-._~";
    let mut c = 0u32;
    while c <= 0x10FFFF {
        if let Some(ch) = char::from_u32(c) {
            assert_eq!(char_is_unreserved(ch), listed.contains(ch), "for U+{:04X}", c);
        }
        c += 1;
    }
}

#[test]
fn push_pair_writes_name_and_encoded_value() {
    let mut out = String::from("x?");
    push_pair(&mut out, "q", "a b");
    assert_eq!(out, "x?q=a%20b");
    push_pair(&mut out, "", "");
    assert_eq!(out, "x?q=a%20b=");
}

#[test]
fn ready_banner_names_the_bot() {
    assert_eq!(ready_banner("clima"), "clima is connected!");
    assert_eq!(ready_banner(""), " is connected!");
}
