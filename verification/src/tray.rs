//! The menubar tray: the language, provider, refinement and microphone menus
//! as data, the localized labels, what each menu click asks for, and when
//! the menu must be rebuilt. The application builds the native menu from
//! these models.

use vstd::prelude::*;
use vstd::string::StrSliceExecFns;
use crate::state::{opt_string, RefinementMode, Settings};
use crate::stt::Provider;
use crate::text::{chars_of, chars_start_with, seq_starts_with, str_eq, strs, trim_whitespace, trim_ws};

verus! {

/// Label of each recognition language (the Whisper set).
pub open spec fn spec_label_of(code: Seq<char>) -> Option<Seq<char>> {
    if code == "af"@ { Some("Afrikaans"@) }
    else if code == "am"@ { Some("አማርኛ · Amharic"@) }
    else if code == "ar"@ { Some("العربية · Arabic"@) }
    else if code == "as"@ { Some("অসমীয়া · Assamese"@) }
    else if code == "az"@ { Some("Azərbaycanca · Azerbaijani"@) }
    else if code == "ba"@ { Some("Башҡортса · Bashkir"@) }
    else if code == "be"@ { Some("Беларуская · Belarusian"@) }
    else if code == "bg"@ { Some("Български · Bulgarian"@) }
    else if code == "bn"@ { Some("বাংলা · Bengali"@) }
    else if code == "bo"@ { Some("བོད་སྐད་ · Tibetan"@) }
    else if code == "br"@ { Some("Brezhoneg · Breton"@) }
    else if code == "bs"@ { Some("Bosanski · Bosnian"@) }
    else if code == "ca"@ { Some("Català · Catalan"@) }
    else if code == "cs"@ { Some("Čeština · Czech"@) }
    else if code == "cy"@ { Some("Cymraeg · Welsh"@) }
    else if code == "da"@ { Some("Dansk · Danish"@) }
    else if code == "de"@ { Some("Deutsch · German"@) }
    else if code == "el"@ { Some("Ελληνικά · Greek"@) }
    else if code == "en"@ { Some("English"@) }
    else if code == "es"@ { Some("Español · Spanish"@) }
    else if code == "et"@ { Some("Eesti · Estonian"@) }
    else if code == "eu"@ { Some("Euskara · Basque"@) }
    else if code == "fa"@ { Some("فارسی · Persian"@) }
    else if code == "fi"@ { Some("Suomi · Finnish"@) }
    else if code == "fo"@ { Some("Føroyskt · Faroese"@) }
    else if code == "fr"@ { Some("Français · French"@) }
    else if code == "gl"@ { Some("Galego · Galician"@) }
    else if code == "gu"@ { Some("ગુજરાતી · Gujarati"@) }
    else if code == "ha"@ { Some("Hausa"@) }
    else if code == "haw"@ { Some("ʻŌlelo Hawaiʻi · Hawaiian"@) }
    else if code == "he"@ { Some("עברית · Hebrew"@) }
    else if code == "hi"@ { Some("हिन्दी · Hindi"@) }
    else if code == "hr"@ { Some("Hrvatski · Croatian"@) }
    else if code == "ht"@ { Some("Kreyòl Ayisyen · Haitian Creole"@) }
    else if code == "hu"@ { Some("Magyar · Hungarian"@) }
    else if code == "hy"@ { Some("Հայերեն · Armenian"@) }
    else if code == "id"@ { Some("Bahasa Indonesia"@) }
    else if code == "is"@ { Some("Íslenska · Icelandic"@) }
    else if code == "it"@ { Some("Italiano · Italian"@) }
    else if code == "ja"@ { Some("日本語 · Japanese"@) }
    else if code == "jw"@ { Some("Basa Jawa · Javanese"@) }
    else if code == "ka"@ { Some("ქართული · Georgian"@) }
    else if code == "kk"@ { Some("Қазақша · Kazakh"@) }
    else if code == "km"@ { Some("ខ្មែរ · Khmer"@) }
    else if code == "kn"@ { Some("ಕನ್ನಡ · Kannada"@) }
    else if code == "ko"@ { Some("한국어 · Korean"@) }
    else if code == "la"@ { Some("Latina · Latin"@) }
    else if code == "lb"@ { Some("Lëtzebuergesch · Luxembourgish"@) }
    else if code == "ln"@ { Some("Lingála · Lingala"@) }
    else if code == "lo"@ { Some("ລາວ · Lao"@) }
    else if code == "lt"@ { Some("Lietuvių · Lithuanian"@) }
    else if code == "lv"@ { Some("Latviešu · Latvian"@) }
    else if code == "mg"@ { Some("Malagasy"@) }
    else if code == "mi"@ { Some("Te Reo Māori · Maori"@) }
    else if code == "mk"@ { Some("Македонски · Macedonian"@) }
    else if code == "ml"@ { Some("മലയാളം · Malayalam"@) }
    else if code == "mn"@ { Some("Монгол · Mongolian"@) }
    else if code == "mr"@ { Some("मराठी · Marathi"@) }
    else if code == "ms"@ { Some("Bahasa Melayu · Malay"@) }
    else if code == "mt"@ { Some("Malti · Maltese"@) }
    else if code == "my"@ { Some("မြန်မာ · Burmese"@) }
    else if code == "ne"@ { Some("नेपाली · Nepali"@) }
    else if code == "nl"@ { Some("Nederlands · Dutch"@) }
    else if code == "nn"@ { Some("Nynorsk · Norwegian Nynorsk"@) }
    else if code == "no"@ { Some("Norsk · Norwegian"@) }
    else if code == "oc"@ { Some("Occitan"@) }
    else if code == "pa"@ { Some("ਪੰਜਾਬੀ · Punjabi"@) }
    else if code == "pl"@ { Some("Polski · Polish"@) }
    else if code == "ps"@ { Some("پښتو · Pashto"@) }
    else if code == "pt"@ { Some("Português · Portuguese"@) }
    else if code == "ro"@ { Some("Română · Romanian"@) }
    else if code == "ru"@ { Some("Русский · Russian"@) }
    else if code == "sa"@ { Some("संस्कृतम् · Sanskrit"@) }
    else if code == "sd"@ { Some("سنڌي · Sindhi"@) }
    else if code == "si"@ { Some("සිංහල · Sinhala"@) }
    else if code == "sk"@ { Some("Slovenčina · Slovak"@) }
    else if code == "sl"@ { Some("Slovenščina · Slovenian"@) }
    else if code == "sn"@ { Some("ChiShona · Shona"@) }
    else if code == "so"@ { Some("Soomaali · Somali"@) }
    else if code == "sq"@ { Some("Shqip · Albanian"@) }
    else if code == "sr"@ { Some("Српски · Serbian"@) }
    else if code == "su"@ { Some("Basa Sunda · Sundanese"@) }
    else if code == "sv"@ { Some("Svenska · Swedish"@) }
    else if code == "sw"@ { Some("Kiswahili · Swahili"@) }
    else if code == "ta"@ { Some("தமிழ் · Tamil"@) }
    else if code == "te"@ { Some("తెలుగు · Telugu"@) }
    else if code == "tg"@ { Some("Тоҷикӣ · Tajik"@) }
    else if code == "th"@ { Some("ไทย · Thai"@) }
    else if code == "tk"@ { Some("Türkmençe · Turkmen"@) }
    else if code == "tl"@ { Some("Tagalog"@) }
    else if code == "tr"@ { Some("Türkçe · Turkish"@) }
    else if code == "tt"@ { Some("Татарча · Tatar"@) }
    else if code == "uk"@ { Some("Українська · Ukrainian"@) }
    else if code == "ur"@ { Some("اردو · Urdu"@) }
    else if code == "uz"@ { Some("Oʻzbekcha · Uzbek"@) }
    else if code == "vi"@ { Some("Tiếng Việt · Vietnamese"@) }
    else if code == "yi"@ { Some("ייִדיש · Yiddish"@) }
    else if code == "yo"@ { Some("Yorùbá · Yoruba"@) }
    else if code == "yue"@ { Some("粵語 · Cantonese"@) }
    else if code == "zh"@ { Some("中文 · Chinese"@) }
    else { None }
}

fn label_of(code: &str) -> (r: Option<&'static str>)
    ensures
        match r {
            Some(l) => spec_label_of(code@) == Some(l@),
            None => spec_label_of(code@) is None,
        },
{
    if str_eq(code, "af") { Some("Afrikaans") }
    else if str_eq(code, "am") { Some("አማርኛ · Amharic") }
    else if str_eq(code, "ar") { Some("العربية · Arabic") }
    else if str_eq(code, "as") { Some("অসমীয়া · Assamese") }
    else if str_eq(code, "az") { Some("Azərbaycanca · Azerbaijani") }
    else if str_eq(code, "ba") { Some("Башҡортса · Bashkir") }
    else if str_eq(code, "be") { Some("Беларуская · Belarusian") }
    else if str_eq(code, "bg") { Some("Български · Bulgarian") }
    else if str_eq(code, "bn") { Some("বাংলা · Bengali") }
    else if str_eq(code, "bo") { Some("བོད་སྐད་ · Tibetan") }
    else if str_eq(code, "br") { Some("Brezhoneg · Breton") }
    else if str_eq(code, "bs") { Some("Bosanski · Bosnian") }
    else if str_eq(code, "ca") { Some("Català · Catalan") }
    else if str_eq(code, "cs") { Some("Čeština · Czech") }
    else if str_eq(code, "cy") { Some("Cymraeg · Welsh") }
    else if str_eq(code, "da") { Some("Dansk · Danish") }
    else if str_eq(code, "de") { Some("Deutsch · German") }
    else if str_eq(code, "el") { Some("Ελληνικά · Greek") }
    else if str_eq(code, "en") { Some("English") }
    else if str_eq(code, "es") { Some("Español · Spanish") }
    else if str_eq(code, "et") { Some("Eesti · Estonian") }
    else if str_eq(code, "eu") { Some("Euskara · Basque") }
    else if str_eq(code, "fa") { Some("فارسی · Persian") }
    else if str_eq(code, "fi") { Some("Suomi · Finnish") }
    else if str_eq(code, "fo") { Some("Føroyskt · Faroese") }
    else if str_eq(code, "fr") { Some("Français · French") }
    else if str_eq(code, "gl") { Some("Galego · Galician") }
    else if str_eq(code, "gu") { Some("ગુજરાતી · Gujarati") }
    else if str_eq(code, "ha") { Some("Hausa") }
    else if str_eq(code, "haw") { Some("ʻŌlelo Hawaiʻi · Hawaiian") }
    else if str_eq(code, "he") { Some("עברית · Hebrew") }
    else if str_eq(code, "hi") { Some("हिन्दी · Hindi") }
    else if str_eq(code, "hr") { Some("Hrvatski · Croatian") }
    else if str_eq(code, "ht") { Some("Kreyòl Ayisyen · Haitian Creole") }
    else if str_eq(code, "hu") { Some("Magyar · Hungarian") }
    else if str_eq(code, "hy") { Some("Հայերեն · Armenian") }
    else if str_eq(code, "id") { Some("Bahasa Indonesia") }
    else if str_eq(code, "is") { Some("Íslenska · Icelandic") }
    else if str_eq(code, "it") { Some("Italiano · Italian") }
    else if str_eq(code, "ja") { Some("日本語 · Japanese") }
    else if str_eq(code, "jw") { Some("Basa Jawa · Javanese") }
    else if str_eq(code, "ka") { Some("ქართული · Georgian") }
    else if str_eq(code, "kk") { Some("Қазақша · Kazakh") }
    else if str_eq(code, "km") { Some("ខ្មែរ · Khmer") }
    else if str_eq(code, "kn") { Some("ಕನ್ನಡ · Kannada") }
    else if str_eq(code, "ko") { Some("한국어 · Korean") }
    else if str_eq(code, "la") { Some("Latina · Latin") }
    else if str_eq(code, "lb") { Some("Lëtzebuergesch · Luxembourgish") }
    else if str_eq(code, "ln") { Some("Lingála · Lingala") }
    else if str_eq(code, "lo") { Some("ລາວ · Lao") }
    else if str_eq(code, "lt") { Some("Lietuvių · Lithuanian") }
    else if str_eq(code, "lv") { Some("Latviešu · Latvian") }
    else if str_eq(code, "mg") { Some("Malagasy") }
    else if str_eq(code, "mi") { Some("Te Reo Māori · Maori") }
    else if str_eq(code, "mk") { Some("Македонски · Macedonian") }
    else if str_eq(code, "ml") { Some("മലയാളം · Malayalam") }
    else if str_eq(code, "mn") { Some("Монгол · Mongolian") }
    else if str_eq(code, "mr") { Some("मराठी · Marathi") }
    else if str_eq(code, "ms") { Some("Bahasa Melayu · Malay") }
    else if str_eq(code, "mt") { Some("Malti · Maltese") }
    else if str_eq(code, "my") { Some("မြန်မာ · Burmese") }
    else if str_eq(code, "ne") { Some("नेपाली · Nepali") }
    else if str_eq(code, "nl") { Some("Nederlands · Dutch") }
    else if str_eq(code, "nn") { Some("Nynorsk · Norwegian Nynorsk") }
    else if str_eq(code, "no") { Some("Norsk · Norwegian") }
    else if str_eq(code, "oc") { Some("Occitan") }
    else if str_eq(code, "pa") { Some("ਪੰਜਾਬੀ · Punjabi") }
    else if str_eq(code, "pl") { Some("Polski · Polish") }
    else if str_eq(code, "ps") { Some("پښتو · Pashto") }
    else if str_eq(code, "pt") { Some("Português · Portuguese") }
    else if str_eq(code, "ro") { Some("Română · Romanian") }
    else if str_eq(code, "ru") { Some("Русский · Russian") }
    else if str_eq(code, "sa") { Some("संस्कृतम् · Sanskrit") }
    else if str_eq(code, "sd") { Some("سنڌي · Sindhi") }
    else if str_eq(code, "si") { Some("සිංහල · Sinhala") }
    else if str_eq(code, "sk") { Some("Slovenčina · Slovak") }
    else if str_eq(code, "sl") { Some("Slovenščina · Slovenian") }
    else if str_eq(code, "sn") { Some("ChiShona · Shona") }
    else if str_eq(code, "so") { Some("Soomaali · Somali") }
    else if str_eq(code, "sq") { Some("Shqip · Albanian") }
    else if str_eq(code, "sr") { Some("Српски · Serbian") }
    else if str_eq(code, "su") { Some("Basa Sunda · Sundanese") }
    else if str_eq(code, "sv") { Some("Svenska · Swedish") }
    else if str_eq(code, "sw") { Some("Kiswahili · Swahili") }
    else if str_eq(code, "ta") { Some("தமிழ் · Tamil") }
    else if str_eq(code, "te") { Some("తెలుగు · Telugu") }
    else if str_eq(code, "tg") { Some("Тоҷикӣ · Tajik") }
    else if str_eq(code, "th") { Some("ไทย · Thai") }
    else if str_eq(code, "tk") { Some("Türkmençe · Turkmen") }
    else if str_eq(code, "tl") { Some("Tagalog") }
    else if str_eq(code, "tr") { Some("Türkçe · Turkish") }
    else if str_eq(code, "tt") { Some("Татарча · Tatar") }
    else if str_eq(code, "uk") { Some("Українська · Ukrainian") }
    else if str_eq(code, "ur") { Some("اردو · Urdu") }
    else if str_eq(code, "uz") { Some("Oʻzbekcha · Uzbek") }
    else if str_eq(code, "vi") { Some("Tiếng Việt · Vietnamese") }
    else if str_eq(code, "yi") { Some("ייִדיש · Yiddish") }
    else if str_eq(code, "yo") { Some("Yorùbá · Yoruba") }
    else if str_eq(code, "yue") { Some("粵語 · Cantonese") }
    else if str_eq(code, "zh") { Some("中文 · Chinese") }
    else { None }
}

/// The menu label of a language code; an unknown code labels itself.
pub fn language_label(code: &str) -> (r: String)
    ensures
        r@ == (match spec_label_of(code@) {
            Some(l) => l,
            None => code@,
        }),
{
    match label_of(code) {
        Some(l) => l.to_string(),
        None => code.to_string(),
    }
}

/// Whether the label table knows `code`.
pub fn language_known(code: &str) -> (r: bool)
    ensures
        r == spec_label_of(code@) is Some,
{
    label_of(code).is_some()
}

/// Languages of the Parakeet engine.
pub open spec fn in_parakeet_langs(code: Seq<char>) -> bool {
    code == "bg"@
        || code == "hr"@
        || code == "cs"@
        || code == "da"@
        || code == "nl"@
        || code == "en"@
        || code == "et"@
        || code == "fi"@
        || code == "fr"@
        || code == "de"@
        || code == "el"@
        || code == "hu"@
        || code == "it"@
        || code == "lv"@
        || code == "lt"@
        || code == "mt"@
        || code == "pl"@
        || code == "pt"@
        || code == "ro"@
        || code == "ru"@
        || code == "sk"@
        || code == "sl"@
        || code == "es"@
        || code == "sv"@
        || code == "uk"@
}

/// Languages of the Qwen3 engine.
pub open spec fn in_qwen3_langs(code: Seq<char>) -> bool {
    code == "zh"@
        || code == "yue"@
        || code == "en"@
        || code == "ja"@
        || code == "ko"@
        || code == "vi"@
        || code == "th"@
        || code == "id"@
        || code == "ms"@
        || code == "ar"@
        || code == "hi"@
        || code == "fa"@
        || code == "tr"@
        || code == "ru"@
        || code == "de"@
        || code == "fr"@
        || code == "es"@
        || code == "pt"@
        || code == "it"@
        || code == "nl"@
        || code == "sv"@
        || code == "da"@
        || code == "fi"@
        || code == "pl"@
        || code == "cs"@
        || code == "el"@
        || code == "hu"@
        || code == "ro"@
        || code == "mk"@
        || code == "tl"@
}

/// Languages of the Gemma engine.
pub open spec fn in_gemma_langs(code: Seq<char>) -> bool {
    code == "en"@
        || code == "zh"@
        || code == "ja"@
        || code == "ko"@
        || code == "de"@
        || code == "fr"@
        || code == "es"@
        || code == "pt"@
        || code == "it"@
        || code == "nl"@
        || code == "ru"@
        || code == "ar"@
        || code == "hi"@
        || code == "id"@
        || code == "vi"@
        || code == "th"@
        || code == "tr"@
        || code == "pl"@
        || code == "uk"@
        || code == "cs"@
        || code == "el"@
        || code == "hu"@
        || code == "ro"@
        || code == "sv"@
        || code == "da"@
        || code == "fi"@
        || code == "he"@
        || code == "fa"@
        || code == "ta"@
        || code == "te"@
        || code == "bn"@
        || code == "ml"@
        || code == "sw"@
}

/// Whether Parakeet transcribes `code` ("auto" always).
pub fn parakeet_supports(code: &str) -> (r: bool)
    ensures
        r == (code@ == "auto"@ || in_parakeet_langs(code@)),
{
    str_eq(code, "auto")
        || str_eq(code, "bg")
        || str_eq(code, "hr")
        || str_eq(code, "cs")
        || str_eq(code, "da")
        || str_eq(code, "nl")
        || str_eq(code, "en")
        || str_eq(code, "et")
        || str_eq(code, "fi")
        || str_eq(code, "fr")
        || str_eq(code, "de")
        || str_eq(code, "el")
        || str_eq(code, "hu")
        || str_eq(code, "it")
        || str_eq(code, "lv")
        || str_eq(code, "lt")
        || str_eq(code, "mt")
        || str_eq(code, "pl")
        || str_eq(code, "pt")
        || str_eq(code, "ro")
        || str_eq(code, "ru")
        || str_eq(code, "sk")
        || str_eq(code, "sl")
        || str_eq(code, "es")
        || str_eq(code, "sv")
        || str_eq(code, "uk")
}

/// Whether Qwen3 transcribes `code` ("auto" always).
pub fn qwen3_supports(code: &str) -> (r: bool)
    ensures
        r == (code@ == "auto"@ || in_qwen3_langs(code@)),
{
    str_eq(code, "auto")
        || str_eq(code, "zh")
        || str_eq(code, "yue")
        || str_eq(code, "en")
        || str_eq(code, "ja")
        || str_eq(code, "ko")
        || str_eq(code, "vi")
        || str_eq(code, "th")
        || str_eq(code, "id")
        || str_eq(code, "ms")
        || str_eq(code, "ar")
        || str_eq(code, "hi")
        || str_eq(code, "fa")
        || str_eq(code, "tr")
        || str_eq(code, "ru")
        || str_eq(code, "de")
        || str_eq(code, "fr")
        || str_eq(code, "es")
        || str_eq(code, "pt")
        || str_eq(code, "it")
        || str_eq(code, "nl")
        || str_eq(code, "sv")
        || str_eq(code, "da")
        || str_eq(code, "fi")
        || str_eq(code, "pl")
        || str_eq(code, "cs")
        || str_eq(code, "el")
        || str_eq(code, "hu")
        || str_eq(code, "ro")
        || str_eq(code, "mk")
        || str_eq(code, "tl")
}

/// Whether Gemma transcribes `code` ("auto" always).
pub fn gemma_supports(code: &str) -> (r: bool)
    ensures
        r == (code@ == "auto"@ || in_gemma_langs(code@)),
{
    str_eq(code, "auto")
        || str_eq(code, "en")
        || str_eq(code, "zh")
        || str_eq(code, "ja")
        || str_eq(code, "ko")
        || str_eq(code, "de")
        || str_eq(code, "fr")
        || str_eq(code, "es")
        || str_eq(code, "pt")
        || str_eq(code, "it")
        || str_eq(code, "nl")
        || str_eq(code, "ru")
        || str_eq(code, "ar")
        || str_eq(code, "hi")
        || str_eq(code, "id")
        || str_eq(code, "vi")
        || str_eq(code, "th")
        || str_eq(code, "tr")
        || str_eq(code, "pl")
        || str_eq(code, "uk")
        || str_eq(code, "cs")
        || str_eq(code, "el")
        || str_eq(code, "hu")
        || str_eq(code, "ro")
        || str_eq(code, "sv")
        || str_eq(code, "da")
        || str_eq(code, "fi")
        || str_eq(code, "he")
        || str_eq(code, "fa")
        || str_eq(code, "ta")
        || str_eq(code, "te")
        || str_eq(code, "bn")
        || str_eq(code, "ml")
        || str_eq(code, "sw")
}

/// The stable id of a provider in menus and events.
pub open spec fn spec_provider_id(p: Provider) -> Seq<char> {
    match p {
        Provider::Deepgram => "deepgram"@,
        Provider::Groq => "groq"@,
        Provider::Openai => "openai"@,
        Provider::Elevenlabs => "elevenlabs"@,
        Provider::Local => "local"@,
        Provider::FluidAudio => "fluid-audio"@,
        Provider::Qwen3 => "qwen3"@,
        Provider::Gemma => "gemma"@,
    }
}

/// The provider an id names.
pub open spec fn spec_provider_from_id(id: Seq<char>) -> Option<Provider> {
    if id == "deepgram"@ { Some(Provider::Deepgram) }
    else if id == "groq"@ { Some(Provider::Groq) }
    else if id == "openai"@ { Some(Provider::Openai) }
    else if id == "elevenlabs"@ { Some(Provider::Elevenlabs) }
    else if id == "local"@ { Some(Provider::Local) }
    else if id == "fluid-audio"@ { Some(Provider::FluidAudio) }
    else if id == "qwen3"@ { Some(Provider::Qwen3) }
    else if id == "gemma"@ { Some(Provider::Gemma) }
    else { None }
}

/// The menu id of a provider.
pub fn provider_id(p: Provider) -> (r: String)
    ensures
        r@ == spec_provider_id(p),
{
    match p {
        Provider::Deepgram => "deepgram",
        Provider::Groq => "groq",
        Provider::Openai => "openai",
        Provider::Elevenlabs => "elevenlabs",
        Provider::Local => "local",
        Provider::FluidAudio => "fluid-audio",
        Provider::Qwen3 => "qwen3",
        Provider::Gemma => "gemma",
    }.to_string()
}

/// The provider a menu id names, if any.
pub fn provider_from_id(id: &str) -> (r: Option<Provider>)
    ensures
        r == spec_provider_from_id(id@),
{
    if str_eq(id, "deepgram") { Some(Provider::Deepgram) }
    else if str_eq(id, "groq") { Some(Provider::Groq) }
    else if str_eq(id, "openai") { Some(Provider::Openai) }
    else if str_eq(id, "elevenlabs") { Some(Provider::Elevenlabs) }
    else if str_eq(id, "local") { Some(Provider::Local) }
    else if str_eq(id, "fluid-audio") { Some(Provider::FluidAudio) }
    else if str_eq(id, "qwen3") { Some(Provider::Qwen3) }
    else if str_eq(id, "gemma") { Some(Provider::Gemma) }
    else { None }
}

/// Every provider's id names it back.
pub proof fn law_provider_id_round_trip(p: Provider)
    ensures
        spec_provider_from_id(spec_provider_id(p)) == Some(p),
{
    reveal_strlit("deepgram");
    reveal_strlit("groq");
    reveal_strlit("openai");
    reveal_strlit("elevenlabs");
    reveal_strlit("local");
    reveal_strlit("fluid-audio");
    reveal_strlit("qwen3");
    reveal_strlit("gemma");
    assert("groq"@[0] != "deepgram"@[0]);
    assert("openai"@[0] != "deepgram"@[0]);
    assert("openai"@[0] != "groq"@[0]);
    assert("elevenlabs"@[0] != "deepgram"@[0]);
    assert("elevenlabs"@[0] != "groq"@[0]);
    assert("elevenlabs"@[0] != "openai"@[0]);
    assert("local"@[0] != "deepgram"@[0]);
    assert("local"@[0] != "groq"@[0]);
    assert("local"@[0] != "openai"@[0]);
    assert("local"@[0] != "elevenlabs"@[0]);
    assert("fluid-audio"@[0] != "deepgram"@[0]);
    assert("fluid-audio"@[0] != "groq"@[0]);
    assert("fluid-audio"@[0] != "openai"@[0]);
    assert("fluid-audio"@[0] != "elevenlabs"@[0]);
    assert("fluid-audio"@[0] != "local"@[0]);
    assert("qwen3"@[0] != "deepgram"@[0]);
    assert("qwen3"@[0] != "groq"@[0]);
    assert("qwen3"@[0] != "openai"@[0]);
    assert("qwen3"@[0] != "elevenlabs"@[0]);
    assert("qwen3"@[0] != "local"@[0]);
    assert("qwen3"@[0] != "fluid-audio"@[0]);
    assert("gemma"@[0] != "deepgram"@[0]);
    assert("gemma"@[1] != "groq"@[1]);
    assert("gemma"@[0] != "openai"@[0]);
    assert("gemma"@[0] != "elevenlabs"@[0]);
    assert("gemma"@[0] != "local"@[0]);
    assert("gemma"@[0] != "fluid-audio"@[0]);
    assert("gemma"@[0] != "qwen3"@[0]);
}

/// An id that names a provider is that provider's id.
pub proof fn law_provider_from_id_inverse(id: Seq<char>)
    ensures
        spec_provider_from_id(id) matches Some(p) ==> spec_provider_id(p) == id,
{
}

/// Providers of the menu, with labels; the Apple-silicon-only engines are
/// hidden elsewhere.
pub open spec fn spec_available_providers(apple_silicon: bool) -> Seq<(Seq<char>, Seq<char>)> {
    if apple_silicon {
        seq![("deepgram"@, "Cloud · Deepgram"@), ("groq"@, "Cloud · Groq"@), ("openai"@, "Cloud · OpenAI"@),
            ("elevenlabs"@, "Cloud · ElevenLabs"@), ("local"@, "Local · Whisper"@),
            ("fluid-audio"@, "Local · Parakeet"@), ("qwen3"@, "Local · Qwen3"@), ("gemma"@, "Local · Gemma"@)]
    } else {
        seq![("deepgram"@, "Cloud · Deepgram"@), ("groq"@, "Cloud · Groq"@), ("openai"@, "Cloud · OpenAI"@),
            ("elevenlabs"@, "Cloud · ElevenLabs"@), ("local"@, "Local · Whisper"@)]
    }
}

/// The providers shown in the menu, as (id, label): all of them on Apple
/// silicon, otherwise without Parakeet, Qwen3 and Gemma.
pub fn available_providers(is_apple_silicon: bool) -> (v: Vec<(&'static str, &'static str)>)
    ensures
        v@.map_values(|e: (&str, &str)| (e.0@, e.1@)) == spec_available_providers(is_apple_silicon),
{
    let mut v: Vec<(&'static str, &'static str)> = vec![
        ("deepgram", "Cloud · Deepgram"),
        ("groq", "Cloud · Groq"),
        ("openai", "Cloud · OpenAI"),
        ("elevenlabs", "Cloud · ElevenLabs"),
        ("local", "Local · Whisper"),
    ];
    if is_apple_silicon {
        v.push(("fluid-audio", "Local · Parakeet"));
        v.push(("qwen3", "Local · Qwen3"));
        v.push(("gemma", "Local · Gemma"));
    }
    assert(v@.map_values(|e: (&str, &str)| (e.0@, e.1@)) =~= spec_available_providers(is_apple_silicon));
    v
}

/// Localized labels of the tray menu.
pub struct TrayStrings {
    pub show: &'static str,
    pub quit: &'static str,
    pub language: &'static str,
    pub provider: &'static str,
    pub auto_detect: &'static str,
    pub pick_languages: &'static str,
    pub refinement: &'static str,
    pub refinement_off: &'static str,
    pub microphone: &'static str,
    pub mic_system_default: &'static str,
    pub mic_unavailable_suffix: &'static str,
    pub persistent_bar: &'static str,
    pub restore_bar: &'static str,
}

impl TrayStrings {
    /// Every label of the table, in declaration order.
    pub open spec fn labels(self) -> Seq<Seq<char>> {
        seq![self.show@, self.quit@, self.language@, self.provider@, self.auto_detect@, self.pick_languages@,
            self.refinement@, self.refinement_off@, self.microphone@, self.mic_system_default@,
            self.mic_unavailable_suffix@, self.persistent_bar@, self.restore_bar@]
    }
}

/// The tray locale of a UI language: simplified Chinese, traditional
/// Chinese, or English.
pub open spec fn tray_locale(ui_lang: Seq<char>) -> int {
    if ui_lang == "zh-CN"@ || ui_lang == "zh"@ || ui_lang == "zh-Hans"@ {
        1
    } else if ui_lang == "zh-TW"@ || ui_lang == "zh-Hant"@ {
        2
    } else {
        0
    }
}

/// The tray labels of a locale.
pub open spec fn spec_tray_labels(locale: int) -> Seq<Seq<char>> {
    if locale == 1 {
        seq!["显示 Vibeking"@, "退出 Vibeking"@, "识别语言"@, "识别引擎"@, "自动检测"@, "选择语言…"@,
            "润色模式"@, "关闭"@, "麦克风"@, "系统默认"@, "(未连接)"@, "常驻悬浮条"@, "恢复悬浮条"@]
    } else if locale == 2 {
        seq!["顯示 Vibeking"@, "結束 Vibeking"@, "辨識語言"@, "辨識引擎"@, "自動偵測"@, "選擇語言…"@,
            "潤色模式"@, "關閉"@, "麥克風"@, "系統預設"@, "(未連接)"@, "常駐懸浮列"@, "恢復懸浮列"@]
    } else {
        seq!["Show Vibeking"@, "Quit Vibeking"@, "STT Language"@, "STT Provider"@, "Auto-detect"@,
            "Pick languages…"@, "Refinement"@, "Off"@, "Microphone"@, "System default"@,
            "(not connected)"@, "Always-on bar"@, "Restore floating bar"@]
    }
}

/// The tray labels for a UI language.
pub fn tray_strings(ui_lang: &str) -> (t: TrayStrings)
    ensures
        t.labels() == spec_tray_labels(tray_locale(ui_lang@)),
{
    if str_eq(ui_lang, "zh-CN") || str_eq(ui_lang, "zh") || str_eq(ui_lang, "zh-Hans") {
        TrayStrings {
            show: "显示 Vibeking",
            quit: "退出 Vibeking",
            language: "识别语言",
            provider: "识别引擎",
            auto_detect: "自动检测",
            pick_languages: "选择语言…",
            refinement: "润色模式",
            refinement_off: "关闭",
            microphone: "麦克风",
            mic_system_default: "系统默认",
            mic_unavailable_suffix: "(未连接)",
            persistent_bar: "常驻悬浮条",
            restore_bar: "恢复悬浮条",
        }
    } else if str_eq(ui_lang, "zh-TW") || str_eq(ui_lang, "zh-Hant") {
        TrayStrings {
            show: "顯示 Vibeking",
            quit: "結束 Vibeking",
            language: "辨識語言",
            provider: "辨識引擎",
            auto_detect: "自動偵測",
            pick_languages: "選擇語言…",
            refinement: "潤色模式",
            refinement_off: "關閉",
            microphone: "麥克風",
            mic_system_default: "系統預設",
            mic_unavailable_suffix: "(未連接)",
            persistent_bar: "常駐懸浮列",
            restore_bar: "恢復懸浮列",
        }
    } else {
        TrayStrings {
            show: "Show Vibeking",
            quit: "Quit Vibeking",
            language: "STT Language",
            provider: "STT Provider",
            auto_detect: "Auto-detect",
            pick_languages: "Pick languages…",
            refinement: "Refinement",
            refinement_off: "Off",
            microphone: "Microphone",
            mic_system_default: "System default",
            mic_unavailable_suffix: "(not connected)",
            persistent_bar: "Always-on bar",
            restore_bar: "Restore floating bar",
        }
    }
}

/// Whether the active provider can transcribe favorite `code`.
pub open spec fn shows_language(provider: Seq<char>, code: Seq<char>) -> bool {
    &&& code != "auto"@
    &&& spec_label_of(code) is Some
    &&& (provider == "fluid-audio"@ ==> in_parakeet_langs(code))
    &&& (provider == "qwen3"@ ==> in_qwen3_langs(code))
    &&& (provider == "gemma"@ ==> in_gemma_langs(code))
}

/// The favorites the active provider can transcribe, with their labels.
pub open spec fn shown_favorites(provider: Seq<char>, favorites: Seq<Seq<char>>) -> Seq<(Seq<char>, Seq<char>)>
    decreases favorites.len(),
{
    if favorites.len() == 0 {
        Seq::empty()
    } else {
        let rest = shown_favorites(provider, favorites.drop_last());
        let c = favorites.last();
        if shows_language(provider, c) {
            rest.push((c, spec_label_of(c)->0))
        } else {
            rest
        }
    }
}

/// The language menu: "auto" first with the localized label, then the
/// favorites the active provider can transcribe, in the order they were
/// starred.
pub fn languages_for_provider(provider: &str, favorites: &[String], strings: &TrayStrings) -> (v: Vec<(String, String)>)
    ensures
        v@.map_values(|e: (String, String)| (e.0@, e.1@)) == seq![("auto"@, strings.auto_detect@)] + shown_favorites(provider@, strs(favorites@)),
{
    let mut out: Vec<(String, String)> = Vec::new();
    out.push(("auto".to_string(), strings.auto_detect.to_string()));
    let ghost head = seq![("auto"@, strings.auto_detect@)];
    assert(out@.map_values(|e: (String, String)| (e.0@, e.1@)) =~= head + shown_favorites(provider@, strs(favorites@).take(0)));
    let mut i: usize = 0;
    while i < favorites.len()
        invariant
            i <= favorites@.len(),
            head == seq![("auto"@, strings.auto_detect@)],
            out@.map_values(|e: (String, String)| (e.0@, e.1@)) == head + shown_favorites(provider@, strs(favorites@).take(i as int)),
        decreases favorites@.len() - i,
    {
        let code = favorites[i].as_str();
        let ghost before = out@.map_values(|e: (String, String)| (e.0@, e.1@));
        proof {
            let t = strs(favorites@).take(i + 1);
            assert(t.drop_last() =~= strs(favorites@).take(i as int));
            assert(t.last() == code@);
        }
        let keep = !str_eq(code, "auto") && language_known(code)
            && (!str_eq(provider, "fluid-audio") || parakeet_supports(code))
            && (!str_eq(provider, "qwen3") || qwen3_supports(code))
            && (!str_eq(provider, "gemma") || gemma_supports(code));
        proof {
            assert(keep == shows_language(provider@, code@));
        }
        if keep {
            let label = language_label(code);
            out.push((code.to_string(), label));
            proof {
                assert(out@.map_values(|e: (String, String)| (e.0@, e.1@)) =~= before.push((code@, spec_label_of(code@)->0)));
            }
        }
        i = i + 1;
    }
    assert(strs(favorites@).take(favorites@.len() as int) =~= strs(favorites@));
    out
}

/// The language the menu applies: a language Parakeet cannot transcribe
/// falls back to "auto" while Parakeet is active.
pub fn effective_language<'a>(provider: Provider, lang: &'a str) -> (r: &'a str)
    ensures
        r@ == (if provider == Provider::FluidAudio && !(lang@ == "auto"@ || in_parakeet_langs(lang@)) { "auto"@ } else { lang@ }),
{
    if provider == Provider::FluidAudio && !parakeet_supports(lang) {
        "auto"
    } else {
        lang
    }
}

/// Switch to the provider a menu id names; an unknown id changes nothing.
/// Switching to Parakeet resets a language it cannot transcribe to "auto".
pub fn apply_provider_choice(settings: &mut Settings, id: &str) -> (applied: bool)
    ensures
        applied == spec_provider_from_id(id@) is Some,
        !applied ==> *final(settings) == *old(settings),
        applied ==> final(settings).provider == spec_provider_from_id(id@)->0,
        applied ==> final(settings).stt_language@ == (if id@ == "fluid-audio"@ && !(old(settings).stt_language@ == "auto"@
            || in_parakeet_langs(old(settings).stt_language@)) { "auto"@ } else { old(settings).stt_language@ }),
        *final(settings) == (Settings { provider: final(settings).provider, stt_language: final(settings).stt_language, ..*old(settings) }),
{
    let parsed = match provider_from_id(id) {
        Some(p) => p,
        None => return false,
    };
    settings.provider = parsed;
    if str_eq(id, "fluid-audio") && !parakeet_supports(settings.stt_language.as_str()) {
        settings.stt_language = "auto".to_string();
    }
    true
}

/// The value stored for a microphone menu choice: the system-default entry
/// is the empty device name.
pub fn resolve_mic_choice(value: &str) -> (r: String)
    ensures
        r@ == (if value@ == "__system_default__"@ { Seq::<char>::empty() } else { value@ }),
{
    if str_eq(value, "__system_default__") {
        String::new()
    } else {
        value.to_string()
    }
}

/// What a refinement menu choice selects: `Some(None)` for "Off",
/// `Some(Some(id))` for a configured mode, `None` for an id no mode has.
pub fn refinement_choice(modes: &[RefinementMode], value: &str) -> (r: Option<Option<String>>)
    ensures
        value@ == "__off__"@ ==> r == Some(None::<String>),
        value@ != "__off__"@ ==> match r {
            Some(Some(id)) => id@ == value@ && exists|k: int| 0 <= k < modes@.len() && (#[trigger] modes@[k]).id@ == value@,
            Some(None) => false,
            None => forall|k: int| 0 <= k < modes@.len() ==> (#[trigger] modes@[k]).id@ != value@,
        },
{
    if str_eq(value, "__off__") {
        return Some(None);
    }
    let mut i: usize = 0;
    while i < modes.len()
        invariant
            i <= modes@.len(),
            value@ != "__off__"@,
            forall|k: int| 0 <= k < i ==> (#[trigger] modes@[k]).id@ != value@,
        decreases modes@.len() - i,
    {
        if str_eq(modes[i].id.as_str(), value) {
            return Some(Some(value.to_string()));
        }
        i = i + 1;
    }
    None
}

/// A request from a tray menu click.
#[derive(Debug, Clone)]
pub enum TrayCommand {
    ShowMain,
    Quit,
    PickLanguages,
    TogglePersistentBar,
    RestoreBar,
    SetLanguage(String),
    SetProvider(String),
    SetRefinement(String),
    SetMic(String),
    Ignore,
}

/// The command a menu id asks for, as a tag and its value: fixed ids for
/// the plain items; `lang:`, `provider:`, `refinement:` and `mic:` prefixes
/// carry a value, and an unknown language or provider is ignored.
pub open spec fn spec_menu_command(id: Seq<char>) -> (int, Seq<char>) {
    if id == "main:show"@ { (0, Seq::empty()) }
    else if id == "app:quit"@ { (1, Seq::empty()) }
    else if id == "pick-languages"@ { (2, Seq::empty()) }
    else if id == "persistent-bar"@ { (3, Seq::empty()) }
    else if id == "restore-bar"@ { (4, Seq::empty()) }
    else if seq_starts_with(id, "lang:"@) {
        let v = id.skip("lang:"@.len() as int);
        if v == "auto"@ || spec_label_of(v) is Some { (5, v) } else { (9, Seq::empty()) }
    } else if seq_starts_with(id, "provider:"@) {
        let v = id.skip("provider:"@.len() as int);
        if spec_provider_from_id(v) is Some { (6, v) } else { (9, Seq::empty()) }
    } else if seq_starts_with(id, "refinement:"@) {
        (7, id.skip("refinement:"@.len() as int))
    } else if seq_starts_with(id, "mic:"@) {
        (8, id.skip("mic:"@.len() as int))
    } else {
        (9, Seq::empty())
    }
}

/// The tag and value of a command.
pub open spec fn command_view(c: TrayCommand) -> (int, Seq<char>) {
    match c {
        TrayCommand::ShowMain => (0, Seq::empty()),
        TrayCommand::Quit => (1, Seq::empty()),
        TrayCommand::PickLanguages => (2, Seq::empty()),
        TrayCommand::TogglePersistentBar => (3, Seq::empty()),
        TrayCommand::RestoreBar => (4, Seq::empty()),
        TrayCommand::SetLanguage(v) => (5, v@),
        TrayCommand::SetProvider(v) => (6, v@),
        TrayCommand::SetRefinement(v) => (7, v@),
        TrayCommand::SetMic(v) => (8, v@),
        TrayCommand::Ignore => (9, Seq::empty()),
    }
}

/// The rest of `id` after `prefix`, when `id` starts with it.
fn strip_prefix_str<'a>(id: &'a str, prefix: &str) -> (r: Option<&'a str>)
    ensures
        match r {
            Some(rest) => seq_starts_with(id@, prefix@) && rest@ == id@.skip(prefix@.len() as int),
            None => !seq_starts_with(id@, prefix@),
        },
{
    let ic = chars_of(id);
    let pc = chars_of(prefix);
    if chars_start_with(&ic, &pc) {
        Some(id.substring_char(pc.len(), ic.len()))
    } else {
        None
    }
}

/// Interpret a tray menu click.
pub fn parse_menu_event(id: &str) -> (c: TrayCommand)
    ensures
        command_view(c) == spec_menu_command(id@),
{
    if str_eq(id, "main:show") {
        return TrayCommand::ShowMain;
    }
    if str_eq(id, "app:quit") {
        return TrayCommand::Quit;
    }
    if str_eq(id, "pick-languages") {
        return TrayCommand::PickLanguages;
    }
    if str_eq(id, "persistent-bar") {
        return TrayCommand::TogglePersistentBar;
    }
    if str_eq(id, "restore-bar") {
        return TrayCommand::RestoreBar;
    }
    if let Some(v) = strip_prefix_str(id, "lang:") {
        if str_eq(v, "auto") || language_known(v) {
            return TrayCommand::SetLanguage(v.to_string());
        }
        return TrayCommand::Ignore;
    }
    if let Some(v) = strip_prefix_str(id, "provider:") {
        if provider_from_id(v).is_some() {
            return TrayCommand::SetProvider(v.to_string());
        }
        return TrayCommand::Ignore;
    }
    if let Some(v) = strip_prefix_str(id, "refinement:") {
        return TrayCommand::SetRefinement(v.to_string());
    }
    if let Some(v) = strip_prefix_str(id, "mic:") {
        return TrayCommand::SetMic(v.to_string());
    }
    TrayCommand::Ignore
}

/// One checkable entry of a tray submenu: the key its click reports, its
/// label, and whether it carries the check mark.
#[derive(Debug, Clone)]
pub struct MenuEntry {
    pub key: String,
    pub label: String,
    pub checked: bool,
}

impl MenuEntry {
    /// The entry as `(key, label, checked)` over plain values.
    pub open spec fn view3(self) -> (Seq<char>, Seq<char>, bool) {
        (self.key@, self.label@, self.checked)
    }
}

/// The microphone submenu: "System default" (checked when no device is
/// saved), each available device (checked when it is the saved one), and a
/// saved device that is not connected, labelled with the suffix and checked.
pub open spec fn spec_mic_entries(available: Seq<Seq<char>>, saved: Seq<char>, default_label: Seq<char>, suffix: Seq<char>) -> Seq<(Seq<char>, Seq<char>, bool)> {
    let s = trim_ws(saved);
    let default_active = s.len() == 0;
    let devices = available.map_values(|n: Seq<char>| (n, n, !default_active && n == s));
    let missing = !default_active && !available.contains(s);
    seq![("__system_default__"@, default_label, default_active)] + devices
        + (if missing { seq![(s, s + " "@ + suffix, true)] } else { Seq::empty() })
}

/// Build the microphone submenu model.
pub fn mic_menu_entries(available: &[String], saved: &str, default_label: &str, suffix: &str) -> (v: Vec<MenuEntry>)
    ensures
        v@.map_values(|e: MenuEntry| e.view3()) == spec_mic_entries(strs(available@), saved@, default_label@, suffix@),
{
    let saved_trim = trim_whitespace(saved);
    let default_active = saved_trim.is_empty();
    let ghost names = strs(available@);
    let ghost s = trim_ws(saved@);
    let mut out: Vec<MenuEntry> = Vec::new();
    out.push(MenuEntry { key: "__system_default__".to_string(), label: default_label.to_string(), checked: default_active });
    let ghost head = seq![("__system_default__"@, default_label@, default_active)];
    assert(out@.map_values(|e: MenuEntry| e.view3()) =~= head);
    let mut found = false;
    let mut i: usize = 0;
    while i < available.len()
        invariant
            i <= available@.len(),
            names == strs(available@),
            s == saved_trim@,
            default_active == (s.len() == 0),
            out@.map_values(|e: MenuEntry| e.view3()) == head + names.take(i as int).map_values(|n: Seq<char>| (n, n, !default_active && n == s)),
            found == names.take(i as int).contains(s),
        decreases available@.len() - i,
    {
        let name = available[i].as_str();
        let same = str_eq(name, saved_trim);
        let ghost before = out@.map_values(|e: MenuEntry| e.view3());
        out.push(MenuEntry { key: name.to_string(), label: name.to_string(), checked: !default_active && same });
        proof {
            let t = names.take(i + 1);
            assert(t =~= names.take(i as int).push(name@));
            assert(t.map_values(|n: Seq<char>| (n, n, !default_active && n == s))
                =~= names.take(i as int).map_values(|n: Seq<char>| (n, n, !default_active && n == s)).push((name@, name@, !default_active && name@ == s)));
            assert(out@.map_values(|e: MenuEntry| e.view3()) =~= before.push((name@, name@, !default_active && same)));
            if same {
                assert(t[i as int] == s);
            }
            if t.contains(s) && !same {
                let k = choose|k: int| 0 <= k < t.len() && t[k] == s;
                assert(k < i);
                assert(names.take(i as int)[k] == s);
            }
        }
        found = found || same;
        i = i + 1;
    }
    assert(names.take(available@.len() as int) =~= names);
    let ghost mid = out@.map_values(|e: MenuEntry| e.view3());
    if !default_active && !found {
        let mut label = saved_trim.to_string();
        label.append(" ");
        label.append(suffix);
        out.push(MenuEntry { key: saved_trim.to_string(), label, checked: true });
        assert(out@.map_values(|e: MenuEntry| e.view3()) =~= mid + seq![(s, s + " "@ + suffix@, true)]);
    } else {
        assert(mid + Seq::<(Seq<char>, Seq<char>, bool)>::empty() =~= mid);
    }
    out
}

/// The refinement submenu: "Off" (checked when no mode is active), then each
/// mode labelled by emoji and name, checked when it is the active one.
pub open spec fn spec_refinement_entries(modes: Seq<RefinementMode>, active: Option<Seq<char>>, off_label: Seq<char>) -> Seq<(Seq<char>, Seq<char>, bool)> {
    seq![("__off__"@, off_label, active is None)]
        + modes.map_values(|m: RefinementMode| (m.id@, m.emoji@ + " "@ + m.name@, active == Some(m.id@)))
}

/// Build the refinement submenu model.
pub fn refinement_menu_entries(modes: &[RefinementMode], active_id: Option<&str>, off_label: &str) -> (v: Vec<MenuEntry>)
    ensures
        v@.map_values(|e: MenuEntry| e.view3()) == spec_refinement_entries(modes@, crate::state::opt_str(active_id), off_label@),
{
    let ghost active = crate::state::opt_str(active_id);
    let mut out: Vec<MenuEntry> = Vec::new();
    out.push(MenuEntry { key: "__off__".to_string(), label: off_label.to_string(), checked: active_id.is_none() });
    let ghost head = seq![("__off__"@, off_label@, active is None)];
    assert(out@.map_values(|e: MenuEntry| e.view3()) =~= head);
    let mut i: usize = 0;
    while i < modes.len()
        invariant
            i <= modes@.len(),
            active == crate::state::opt_str(active_id),
            out@.map_values(|e: MenuEntry| e.view3()) == head + modes@.take(i as int).map_values(|m: RefinementMode| (m.id@, m.emoji@ + " "@ + m.name@, active == Some(m.id@))),
        decreases modes@.len() - i,
    {
        let m = &modes[i];
        let mut label = m.emoji.clone();
        label.append(" ");
        label.append(m.name.as_str());
        let checked = match active_id {
            Some(a) => str_eq(m.id.as_str(), a),
            None => false,
        };
        let ghost before = out@.map_values(|e: MenuEntry| e.view3());
        out.push(MenuEntry { key: m.id.clone(), label, checked });
        proof {
            let t = modes@.take(i + 1);
            assert(t =~= modes@.take(i as int).push(*m));
            assert(out@.map_values(|e: MenuEntry| e.view3()) =~= before.push((m.id@, m.emoji@ + " "@ + m.name@, active == Some(m.id@))));
        }
        i = i + 1;
    }
    assert(modes@.take(modes@.len() as int) =~= modes@);
    out
}

/// The language submenu: each option checked when it is the active language.
pub fn language_menu_entries(options: &[(String, String)], active: &str) -> (v: Vec<MenuEntry>)
    ensures
        v@.map_values(|e: MenuEntry| e.view3()) == options@.map_values(|o: (String, String)| (o.0@, o.1@, o.0@ == active@)),
{
    let mut out: Vec<MenuEntry> = Vec::new();
    let mut i: usize = 0;
    while i < options.len()
        invariant
            i <= options@.len(),
            out@.map_values(|e: MenuEntry| e.view3()) == options@.take(i as int).map_values(|o: (String, String)| (o.0@, o.1@, o.0@ == active@)),
        decreases options@.len() - i,
    {
        let o = &options[i];
        let checked = str_eq(o.0.as_str(), active);
        let ghost before = out@.map_values(|e: MenuEntry| e.view3());
        out.push(MenuEntry { key: o.0.clone(), label: o.1.clone(), checked });
        proof {
            assert(options@.take(i + 1) =~= options@.take(i as int).push(*o));
            assert(out@.map_values(|e: MenuEntry| e.view3()) =~= before.push((o.0@, o.1@, o.0@ == active@)));
        }
        i = i + 1;
    }
    assert(options@.take(options@.len() as int) =~= options@);
    out
}

/// Whether the language menu needs the "Pick languages…" item: only "auto"
/// would be shown.
pub fn needs_pick_languages(options_len: usize) -> (r: bool)
    ensures
        r == (options_len <= 1),
{
    options_len <= 1
}

/// What the tray menu was built from: the UI language, the provider id, the
/// favorite languages, the active refinement mode and each mode's id, name
/// and emoji, the saved microphone and the devices listed, and the
/// always-on bar setting. The menu is rebuilt only when this changes.
#[derive(Debug, Clone)]
pub struct TrayKey {
    pub ui_language: String,
    pub provider: String,
    pub favorites: Vec<String>,
    pub active_mode: Option<String>,
    pub modes: Vec<(String, String, String)>,
    pub mic_device: String,
    pub devices: Vec<String>,
    pub persistent_bar: bool,
}

/// A refinement mode's id, name and emoji.
pub open spec fn mode_label_view(m: RefinementMode) -> (Seq<char>, Seq<char>, Seq<char>) {
    (m.id@, m.name@, m.emoji@)
}

/// The characters of a key's parts.
pub open spec fn labels_view(v: Seq<(String, String, String)>) -> Seq<(Seq<char>, Seq<char>, Seq<char>)> {
    v.map_values(|t: (String, String, String)| (t.0@, t.1@, t.2@))
}

impl TrayKey {
    /// The key as character sequences.
    pub open spec fn key_view(self) -> (Seq<char>, Seq<char>, Seq<Seq<char>>, Option<Seq<char>>,
        Seq<(Seq<char>, Seq<char>, Seq<char>)>, Seq<char>, Seq<Seq<char>>, bool) {
        (self.ui_language@, self.provider@, strs(self.favorites@), opt_string(self.active_mode),
            labels_view(self.modes@), self.mic_device@, strs(self.devices@), self.persistent_bar)
    }
}

fn copy_strings(v: &[String]) -> (r: Vec<String>)
    ensures
        strs(r@) == strs(v@),
{
    let mut r: Vec<String> = Vec::new();
    let mut i: usize = 0;
    while i < v.len()
        invariant
            i <= v@.len(),
            strs(r@) == strs(v@).take(i as int),
        decreases v@.len() - i,
    {
        let ghost before = strs(r@);
        r.push(v[i].clone());
        assert(strs(r@) =~= before.push(v@[i as int]@));
        assert(strs(v@).take(i + 1) =~= strs(v@).take(i as int).push(v@[i as int]@));
        i = i + 1;
    }
    assert(strs(v@).take(v@.len() as int) =~= strs(v@));
    r
}

/// The key of the menu for `settings` with `devices` listed.
pub fn tray_key(settings: &Settings, devices: &[String]) -> (k: TrayKey)
    ensures
        k.key_view() == (settings.language@, spec_provider_id(settings.provider), strs(settings.favorite_stt_languages@),
            opt_string(settings.active_refinement_mode_id),
            settings.refinement_modes@.map_values(|m: RefinementMode| mode_label_view(m)),
            settings.mic_device@, strs(devices@), settings.persistent_bar),
{
    let mut modes: Vec<(String, String, String)> = Vec::new();
    let mut i: usize = 0;
    while i < settings.refinement_modes.len()
        invariant
            i <= settings.refinement_modes@.len(),
            labels_view(modes@) == settings.refinement_modes@.take(i as int).map_values(|m: RefinementMode| mode_label_view(m)),
        decreases settings.refinement_modes@.len() - i,
    {
        let m = &settings.refinement_modes[i];
        let ghost before = labels_view(modes@);
        modes.push((m.id.clone(), m.name.clone(), m.emoji.clone()));
        proof {
            assert(labels_view(modes@) =~= before.push(mode_label_view(*m)));
            assert(settings.refinement_modes@.take(i + 1) =~= settings.refinement_modes@.take(i as int).push(*m));
        }
        i = i + 1;
    }
    assert(settings.refinement_modes@.take(settings.refinement_modes@.len() as int) =~= settings.refinement_modes@);
    let active_mode = match &settings.active_refinement_mode_id {
        Some(a) => Some(a.clone()),
        None => None,
    };
    TrayKey {
        ui_language: settings.language.clone(),
        provider: provider_id(settings.provider),
        favorites: copy_strings(settings.favorite_stt_languages.as_slice()),
        active_mode,
        modes,
        mic_device: settings.mic_device.clone(),
        devices: copy_strings(devices),
        persistent_bar: settings.persistent_bar,
    }
}

fn same_strings(a: &[String], b: &[String]) -> (r: bool)
    ensures
        r == (strs(a@) == strs(b@)),
{
    if a.len() != b.len() {
        assert(strs(a@).len() != strs(b@).len());
        return false;
    }
    let mut i: usize = 0;
    while i < a.len()
        invariant
            a@.len() == b@.len(),
            i <= a@.len(),
            forall|k: int| 0 <= k < i ==> a@[k]@ == b@[k]@,
        decreases a@.len() - i,
    {
        if !str_eq(a[i].as_str(), b[i].as_str()) {
            assert(strs(a@)[i as int] != strs(b@)[i as int]);
            return false;
        }
        i = i + 1;
    }
    assert(strs(a@) =~= strs(b@));
    true
}

fn same_labels(a: &[(String, String, String)], b: &[(String, String, String)]) -> (r: bool)
    ensures
        r == (labels_view(a@) == labels_view(b@)),
{
    if a.len() != b.len() {
        assert(labels_view(a@).len() != labels_view(b@).len());
        return false;
    }
    let mut i: usize = 0;
    while i < a.len()
        invariant
            a@.len() == b@.len(),
            i <= a@.len(),
            forall|k: int| 0 <= k < i ==> (a@[k].0@, a@[k].1@, a@[k].2@) == (b@[k].0@, b@[k].1@, b@[k].2@),
        decreases a@.len() - i,
    {
        let x = &a[i];
        let y = &b[i];
        if !(str_eq(x.0.as_str(), y.0.as_str()) && str_eq(x.1.as_str(), y.1.as_str()) && str_eq(x.2.as_str(), y.2.as_str())) {
            assert(labels_view(a@)[i as int] != labels_view(b@)[i as int]);
            return false;
        }
        i = i + 1;
    }
    assert(labels_view(a@) =~= labels_view(b@));
    true
}

/// Whether the menu must be rebuilt: it was never built, or what it was
/// built from has changed.
pub fn tray_needs_rebuild(last: &Option<TrayKey>, key: &TrayKey) -> (r: bool)
    ensures
        r == (match last {
            None => true,
            Some(k) => k.key_view() != key.key_view(),
        }),
{
    match last {
        None => true,
        Some(k) => {
            let same_active = match (&k.active_mode, &key.active_mode) {
                (None, None) => true,
                (Some(a), Some(b)) => str_eq(a.as_str(), b.as_str()),
                _ => false,
            };
            let same = str_eq(k.ui_language.as_str(), key.ui_language.as_str())
                && str_eq(k.provider.as_str(), key.provider.as_str())
                && same_strings(k.favorites.as_slice(), key.favorites.as_slice())
                && same_active
                && same_labels(k.modes.as_slice(), key.modes.as_slice())
                && str_eq(k.mic_device.as_str(), key.mic_device.as_str())
                && same_strings(k.devices.as_slice(), key.devices.as_slice())
                && k.persistent_bar == key.persistent_bar;
            !same
        },
    }
}

} // verus!
