//! One reply builder per command.
//!
//! Each builder is a function of plain values; what a reply needs from
//! outside (the channel, the clock, the weather) comes in as an argument.

use crate::escape::{
    escape, escape_markup, inert, lemma_escape_inert, lemma_inert_concat,
    lemma_inert_mentions_nobody, lemma_plain_inert, plain,
};
use crate::reply::{Embed, EmbedField, EmbedFieldView, EmbedView, OutboundReply, OutboundReplyView};
use crate::text::{decimal, is_digit, lemma_decimal_digits, lemma_decimal_value, render_decimal};
use crate::weather::{Weather, WeatherView};
use vstd::prelude::*;
use vstd::string::StringExecFns;

verus! {

/// Where the picture of the greeting lies on disk.
pub open spec fn greeting_asset() -> Seq<char> {
    "./ferris_eyes.png"@
}

/// The answer to `!ping`.
pub open spec fn pong_reply() -> OutboundReplyView {
    OutboundReplyView::Text("Pong!"@)
}

/// The answer to `!help`, sent to the author in private.
pub open spec fn help_reply() -> OutboundReplyView {
    OutboundReplyView::Direct("HELP"@)
}

/// How a channel is referred to inside a message.
pub open spec fn channel_mention(channel: u64) -> Seq<char> {
    "<#"@ + decimal(channel as nat) + ">"@
}

/// The answer to `!prueba`: a fixed sentence around the escaped name of
/// the author and the mention of the channel.
pub open spec fn prueba_text(author: Seq<char>, channel: u64) -> Seq<char> {
    "User "@ + escape(author) + " used the 'prueba' command in the "@ + channel_mention(channel)
        + " channel"@
}

/// What stands before the mention in the answer to `!prueba`.
pub open spec fn prueba_lead(author: Seq<char>) -> Seq<char> {
    "User "@ + escape(author) + " used the 'prueba' command in the "@
}

/// The answer to `!prueba`, as plain text to the channel.
pub open spec fn prueba_reply(author: Seq<char>, channel: u64) -> OutboundReplyView {
    OutboundReplyView::Text(prueba_text(author, channel))
}

/// The embed of the greeting.
pub open spec fn hello_embed(now: i64) -> EmbedView {
    EmbedView {
        title: "This is a title"@,
        description: Some("This is a description"@),
        fields: seq![
            EmbedFieldView {
                name: "This is the first field"@,
                value: "This is a field body"@,
                inline: true,
            },
            EmbedFieldView {
                name: "This is the second field"@,
                value: "Both fields are inline"@,
                inline: true,
            },
            EmbedFieldView {
                name: "This is the third field"@,
                value: "This is not an inline field"@,
                inline: false,
            },
        ],
        footer: Some("This is a footer"@),
        image: Some("attachment://ferris_eyes.png"@),
        timestamp: Some(now),
    }
}

/// The answer to `!hello`: a line of text, the embed, and the picture
/// attached.
pub open spec fn hello_reply(now: i64) -> OutboundReplyView {
    OutboundReplyView::Rich {
        content: Some("Hello, World!"@),
        embed: hello_embed(now),
        attachment: Some(greeting_asset()),
    }
}

/// The answer to `!hello` when the picture cannot be read.
pub open spec fn hello_fallback_reply() -> OutboundReplyView {
    OutboundReplyView::Text("⚠️ No se pudo cargar la imagen."@)
}

/// The embed that shows `weather`.
pub open spec fn clima_embed(weather: WeatherView, now: i64) -> EmbedView {
    EmbedView {
        title: "☁️ Clima en "@ + weather.name,
        description: None,
        fields: seq![
            EmbedFieldView { name: "🌡 Temperatura"@, value: weather.temp + "°C"@, inline: true },
            EmbedFieldView { name: "📉 Mínima"@, value: weather.temp_min + "°C"@, inline: true },
            EmbedFieldView { name: "📈 Máxima"@, value: weather.temp_max + "°C"@, inline: true },
            EmbedFieldView {
                name: "💧 Humedad"@,
                value: decimal(weather.humidity as nat) + "%"@,
                inline: true,
            },
            EmbedFieldView { name: "🌤 Estado"@, value: weather.description, inline: false },
        ],
        footer: Some("Datos de OpenWeather"@),
        image: None,
        timestamp: Some(now),
    }
}

/// The answer to `!clima` when the weather is known.
pub open spec fn clima_reply(weather: WeatherView, now: i64) -> OutboundReplyView {
    OutboundReplyView::Rich { content: None, embed: clima_embed(weather, now), attachment: None }
}

/// The answer to `!clima` when the weather could not be had.
pub open spec fn clima_failure_reply() -> OutboundReplyView {
    OutboundReplyView::Text("⚠️ No se pudo obtener el clima."@)
}

/// The line that announces the bot under `name` once it is connected.
pub open spec fn ready_line(name: Seq<char>) -> Seq<char> {
    name + " is connected!"@
}

/// The name of the author cannot change how the answer to `!prueba`
/// reads. Whatever the name holds, the answer is an inert text, then the
/// mention of the channel, then an inert text: the only markup in it is
/// the mention that the bot put there, and nowhere before it does
/// `@everyone` or `@here` stand.
pub proof fn lemma_prueba_structure(author: Seq<char>, channel: u64)
    ensures
        prueba_text(author, channel) == prueba_lead(author) + channel_mention(channel)
            + " channel"@,
        inert(prueba_lead(author)),
        inert(" channel"@),
        forall|k: int|
            0 <= k <= prueba_lead(author).len() ==> !"@everyone"@.is_prefix_of(
                #[trigger] prueba_lead(author).skip(k),
            ) && !"@here"@.is_prefix_of(prueba_lead(author).skip(k)),
{
    let head = "User "@;
    let middle = " used the 'prueba' command in the "@;
    let tail = " channel"@;
    reveal_strlit("User ");
    reveal_strlit(" used the 'prueba' command in the ");
    reveal_strlit(" channel");
    assert(plain(head));
    assert(plain(middle));
    assert(plain(tail));
    lemma_plain_inert(head);
    lemma_plain_inert(middle);
    lemma_plain_inert(tail);
    lemma_escape_inert(author);
    lemma_inert_concat(head, escape(author));
    lemma_inert_concat(head + escape(author), middle);
    let lead = prueba_lead(author);
    assert forall|k: int| 0 <= k <= lead.len() implies !"@everyone"@.is_prefix_of(
        #[trigger] lead.skip(k),
    ) && !"@here"@.is_prefix_of(lead.skip(k)) by {
        lemma_inert_mentions_nobody(lead, k);
    }
}

/// The mention of a channel is `<#`, digits only, and `>`, and it names
/// one channel: different channels have different mentions.
pub proof fn lemma_mention_names_channel(a: u64, b: u64)
    ensures
        channel_mention(a) == "<#"@ + decimal(a as nat) + ">"@,
        forall|i: int|
            0 <= i < decimal(a as nat).len() ==> is_digit(#[trigger] decimal(a as nat)[i]),
        channel_mention(a) == channel_mention(b) ==> a == b,
{
    reveal_strlit("<#");
    reveal_strlit(">");
    lemma_decimal_digits(a as nat);
    let da = decimal(a as nat);
    let db = decimal(b as nat);
    if channel_mention(a) == channel_mention(b) {
        assert(da.len() == db.len()) by {
            assert(channel_mention(a).len() == 2 + da.len() + 1);
            assert(channel_mention(b).len() == 2 + db.len() + 1);
        }
        assert forall|i: int| 0 <= i < da.len() implies da[i] == db[i] by {
            assert(channel_mention(a)[i + 2] == da[i]);
            assert(channel_mention(b)[i + 2] == db[i]);
        }
        assert(da == db);
        lemma_decimal_value(a as nat);
        lemma_decimal_value(b as nat);
    }
}

fn field(name: &str, value: String, inline: bool) -> (f: EmbedField)
    ensures
        f@ == (EmbedFieldView { name: name@, value: value@, inline }),
{
    EmbedField { name: String::from_str(name), value, inline }
}

fn degrees(number: &str) -> (s: String)
    ensures
        s@ == number@ + "°C"@,
{
    let mut s = String::from_str(number);
    s.append("°C");
    s
}

/// Builds the answer to `!ping`.
pub fn pong() -> (r: OutboundReply)
    ensures
        r@ == pong_reply(),
{
    OutboundReply::Text(String::from_str("Pong!"))
}

/// Builds the answer to `!help`.
pub fn help() -> (r: OutboundReply)
    ensures
        r@ == help_reply(),
{
    OutboundReply::Direct(String::from_str("HELP"))
}

/// Builds the answer to `!prueba` from `author` in `channel`.
pub fn prueba(author: &str, channel: u64) -> (r: OutboundReply)
    ensures
        r@ == prueba_reply(author@, channel),
{
    let mut s = String::from_str("User ");
    s.append(escape_markup(author).as_str());
    s.append(" used the 'prueba' command in the ");
    s.append("<#");
    s.append(render_decimal(channel).as_str());
    s.append(">");
    s.append(" channel");
    assert(s@ == prueba_text(author@, channel));
    OutboundReply::Text(s)
}

/// Builds the answer to `!hello`, stamped with the time `now`.
pub fn hello(now: i64) -> (r: OutboundReply)
    ensures
        r@ == hello_reply(now),
{
    let mut fields: Vec<EmbedField> = Vec::new();
    fields.push(field("This is the first field", String::from_str("This is a field body"), true));
    fields.push(
        field("This is the second field", String::from_str("Both fields are inline"), true),
    );
    fields.push(
        field("This is the third field", String::from_str("This is not an inline field"), false),
    );
    let embed = Embed {
        title: String::from_str("This is a title"),
        description: Some(String::from_str("This is a description")),
        fields,
        footer: Some(String::from_str("This is a footer")),
        image: Some(String::from_str("attachment://ferris_eyes.png")),
        timestamp: Some(now),
    };
    assert(embed@.fields == hello_embed(now).fields);
    OutboundReply::Rich {
        content: Some(String::from_str("Hello, World!")),
        embed,
        attachment: Some(String::from_str("./ferris_eyes.png")),
    }
}

/// Builds the answer to `!hello` for when the picture cannot be read.
pub fn hello_fallback() -> (r: OutboundReply)
    ensures
        r@ == hello_fallback_reply(),
{
    OutboundReply::Text(String::from_str("⚠️ No se pudo cargar la imagen."))
}

/// Builds the answer to `!clima` that shows `weather`, stamped with the
/// time `now`.
pub fn clima(weather: &Weather, now: i64) -> (r: OutboundReply)
    ensures
        r@ == clima_reply(weather@, now),
{
    let mut title = String::from_str("☁️ Clima en ");
    title.append(weather.name.as_str());
    let mut humidity = render_decimal(weather.humidity as u64);
    humidity.append("%");
    let mut fields: Vec<EmbedField> = Vec::new();
    fields.push(field("🌡 Temperatura", degrees(weather.temp.as_str()), true));
    fields.push(field("📉 Mínima", degrees(weather.temp_min.as_str()), true));
    fields.push(field("📈 Máxima", degrees(weather.temp_max.as_str()), true));
    fields.push(field("💧 Humedad", humidity, true));
    fields.push(field("🌤 Estado", weather.description.clone(), false));
    let embed = Embed {
        title,
        description: None,
        fields,
        footer: Some(String::from_str("Datos de OpenWeather")),
        image: None,
        timestamp: Some(now),
    };
    assert(embed@.fields == clima_embed(weather@, now).fields);
    OutboundReply::Rich { content: None, embed, attachment: None }
}

/// Builds the answer to `!clima` for when the weather could not be had.
pub fn clima_failure() -> (r: OutboundReply)
    ensures
        r@ == clima_failure_reply(),
{
    OutboundReply::Text(String::from_str("⚠️ No se pudo obtener el clima."))
}

/// Builds the line that announces the bot under `name`.
pub fn ready_banner(name: &str) -> (s: String)
    ensures
        s@ == ready_line(name@),
{
    let mut s = String::from_str(name);
    s.append(" is connected!");
    s
}

} // verus!
