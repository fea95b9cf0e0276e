//! Message catalogs: the built-in ones, custom packs read from JSON, lookup
//! with fallback to the key, and `{name}` placeholders.
use vstd::prelude::*;

use crate::catalog::{EN_US_MESSAGES, ZH_CN_MESSAGES};
use crate::error::{AppError, AppResult, ErrorView};
use crate::model::Priority;
use crate::storage::{joined_path, path_join};
use crate::text::{
    append_str, is_blank_spec, owned, replace_all, replace_spec, same_text, text_lt,
    text_lt_spec, trim, trim_spec, lemma_text_lt_irreflexive, lemma_text_lt_total,
    lemma_text_lt_transitive,
};

verus! {

pub const DEFAULT_LOCALE: &'static str = "en_US";

pub const BUILTIN_LOCALES: [&'static str; 2] = ["en_US", "zh_CN"];

pub type Params<'a> = [(&'a str, String)];

/// A key and its text.
pub type Entry = (Seq<char>, Seq<char>);

/// The catalog that a list of entries makes when later entries win.
pub open spec fn entries_map(s: Seq<Entry>) -> Map<Seq<char>, Seq<char>>
    decreases s.len(),
{
    if s.len() == 0 {
        Map::empty()
    } else {
        entries_map(s.drop_last()).insert(s.last().0, s.last().1)
    }
}

/// The entries of a built-in catalog table.
pub open spec fn table_entries(t: Seq<(&'static str, &'static str)>) -> Seq<Entry> {
    t.map_values(|p: (&'static str, &'static str)| (p.0@, p.1@))
}

pub open spec fn en_us_entries() -> Seq<Entry> {
    table_entries(EN_US_MESSAGES@)
}

pub open spec fn zh_cn_entries() -> Seq<Entry> {
    table_entries(ZH_CN_MESSAGES@)
}

/// The built-in catalog for a locale: `zh_CN` has its own, any other locale
/// the English one.
pub open spec fn builtin_entries(locale: Seq<char>) -> Seq<Entry> {
    if locale == "zh_CN"@ {
        zh_cn_entries()
    } else {
        en_us_entries()
    }
}

/// Whether a locale has a built-in catalog.
pub open spec fn is_builtin_locale(locale: Seq<char>) -> bool {
    locale == "en_US"@ || locale == "zh_CN"@
}

/// The built-in part of a locale's catalog: English first, then the locale's
/// own built-in catalog over it when it has one.
pub open spec fn base_entries(locale: Seq<char>) -> Seq<Entry> {
    if locale != "en_US"@ && is_builtin_locale(locale) {
        en_us_entries() + builtin_entries(locale)
    } else {
        en_us_entries()
    }
}

/// The members of a JSON object whose value is a string.
pub open spec fn string_members(ms: Seq<(Seq<char>, Option<Seq<char>>)>) -> Seq<Entry>
    decreases ms.len(),
{
    if ms.len() == 0 {
        Seq::empty()
    } else {
        let rest = string_members(ms.drop_last());
        match ms.last().1 {
            Some(v) => rest.push((ms.last().0, v)),
            None => rest,
        }
    }
}

/// A locale name as given, trimmed, or `en_US` when blank.
pub open spec fn normalize_locale_spec(locale: Seq<char>) -> Seq<char> {
    if trim_spec(locale).len() == 0 {
        "en_US"@
    } else {
        trim_spec(locale)
    }
}

/// `{name}`: how a placeholder is written in a message.
pub open spec fn placeholder(name: Seq<char>) -> Seq<char> {
    seq!['{'] + name + seq!['}']
}

/// A message with each placeholder `{name}` replaced by its value, the
/// parameters applied one after another.
pub open spec fn fill_params(text: Seq<char>, params: Seq<Entry>) -> Seq<char>
    decreases params.len(),
{
    if params.len() == 0 {
        text
    } else {
        replace_spec(
            fill_params(text, params.drop_last()),
            placeholder(params.last().0),
            params.last().1,
        )
    }
}

pub open spec fn params_view(params: Seq<(&str, String)>) -> Seq<Entry> {
    params.map_values(|p: (&str, String)| (p.0@, p.1@))
}

/// What a JSON document holds at the top: `Err` with serde_json's message
/// when the bytes are not JSON, `Ok(None)` when the value is not an object,
/// otherwise the object's members with the text of those that are strings.
/// Named, since serde_json's parser is not restated here.
pub uninterp spec fn json_members(bytes: Seq<u8>) -> Result<
    Option<Seq<(Seq<char>, Option<Seq<char>>)>>,
    Seq<char>,
>;

pub open spec fn member_view(m: (String, Option<String>)) -> (Seq<char>, Option<Seq<char>>) {
    (
        m.0@,
        match m.1 {
            Some(v) => Some(v@),
            None => None,
        },
    )
}

pub open spec fn members_view(
    r: Result<Option<Vec<(String, Option<String>)>>, String>,
) -> Result<Option<Seq<(Seq<char>, Option<Seq<char>>)>>, Seq<char>> {
    match r {
        Err(e) => Err(e@),
        Ok(None) => Ok(None),
        Ok(Some(v)) => Ok(Some(v@.map_values(|m: (String, Option<String>)| member_view(m)))),
    }
}

/// Reads JSON with `serde_json::from_slice` into a `Value` and, when it is an
/// object, lists its members, keeping a member's text when it is a string.
/// The contract claims that the outcome is a function of the bytes.
#[verifier::external_body]
fn parse_json_members(bytes: &[u8]) -> (r: Result<Option<Vec<(String, Option<String>)>>, String>)
    ensures
        members_view(r) == json_members(bytes@),
{
    match serde_json::from_slice::<serde_json::Value>(bytes) {
        Err(e) => Err(e.to_string()),
        Ok(serde_json::Value::Object(map)) => Ok(Some(map.into_iter().map(|(k, v)| match v {
            serde_json::Value::String(s) => (k, Some(s)),
            _ => (k, None),
        }).collect())),
        Ok(_) => Ok(None),
    }
}

/// The text of the error for a locale file that is JSON but not an object.
pub open spec fn not_an_object_text() -> Seq<char> {
    "locale file must be a flat JSON object"@
}

/// Where a locale is looked for as a custom pack: `<dir>/<locale>.json`.
pub open spec fn custom_locale_path_spec(i18n_dir: Seq<char>, locale: Seq<char>) -> Seq<char> {
    joined_path(i18n_dir, normalize_locale_spec(locale) + ".json"@)
}

/// What loading a locale gives: its name and entries, or the error. `custom`
/// holds the bytes of the custom pack when its file exists.
pub open spec fn load_spec(locale: Seq<char>, i18n_dir: Seq<char>, custom: Option<Seq<u8>>) -> Result<
    (Seq<char>, Seq<Entry>),
    ErrorView,
> {
    let loc = normalize_locale_spec(locale);
    match custom {
        None => Ok((loc, base_entries(loc))),
        Some(bytes) => match json_members(bytes) {
            Err(msg) => Err(
                ErrorView::InvalidLocaleFile(custom_locale_path_spec(i18n_dir, locale), msg),
            ),
            Ok(None) => Err(
                ErrorView::InvalidLocaleFile(
                    custom_locale_path_spec(i18n_dir, locale),
                    not_an_object_text(),
                ),
            ),
            Ok(Some(ms)) => Ok((loc, base_entries(loc) + string_members(ms))),
        },
    }
}

/// A catalog for one locale.
#[derive(Debug, Clone)]
pub struct I18n {
    locale: String,
    messages: Vec<(String, String)>,
}

/// Where a locale option comes from.
#[derive(Debug, Clone, Copy, PartialEq, Eq, Structural)]
pub enum LocaleSource {
    Builtin,
    Custom,
}

/// One choice in the language picker.
#[derive(Debug, Clone, PartialEq, Eq)]
pub struct LocaleOption {
    pub locale: String,
    pub source: LocaleSource,
    pub is_current: bool,
}

/// A locale option as a mathematical value.
pub struct OptionView {
    pub locale: Seq<char>,
    pub source: LocaleSource,
    pub is_current: bool,
}

impl View for LocaleOption {
    type V = OptionView;

    open spec fn view(&self) -> OptionView {
        OptionView { locale: self.locale@, source: self.source, is_current: self.is_current }
    }
}

impl LocaleOption {
    /// A copy of the option.
    pub fn duplicate(&self) -> (r: LocaleOption)
        ensures
            r@ == self@,
    {
        LocaleOption { locale: self.locale.clone(), source: self.source, is_current: self.is_current }
    }

    /// The display name of the option's locale.
    pub fn display_name(&self) -> (r: String)
        ensures
            r@ == locale_display_name_spec(self.locale@),
    {
        owned(locale_display_name(self.locale.as_str()))
    }
}

/// A catalog's entries in order, each later one winning over an earlier one.
pub open spec fn messages_view(m: Seq<(String, String)>) -> Seq<Entry> {
    m.map_values(|p: (String, String)| (p.0@, p.1@))
}

/// The text a catalog gives a key: its message, or the key itself.
pub open spec fn lookup(catalog: Map<Seq<char>, Seq<char>>, key: Seq<char>) -> Seq<char> {
    if catalog.contains_key(key) {
        catalog[key]
    } else {
        key
    }
}

/// Whether `entries_map(s)` gives key `k` the text of entry `i`, the last
/// entry with that key.
proof fn lemma_entries_map_last(s: Seq<Entry>, k: Seq<char>, i: int)
    requires
        0 <= i <= s.len(),
        forall|j: int| i <= j < s.len() ==> (#[trigger] s[j]).0 != k,
    ensures
        entries_map(s).contains_key(k) == entries_map(s.take(i)).contains_key(k),
        entries_map(s).contains_key(k) ==> entries_map(s)[k] == entries_map(s.take(i))[k],
    decreases s.len() - i,
{
    if i < s.len() {
        let t = s.drop_last();
        assert forall|j: int| i <= j < t.len() implies (#[trigger] t[j]).0 != k by {
            assert(t[j] == s[j]);
        }
        lemma_entries_map_last(t, k, i);
        assert(t.take(i) =~= s.take(i));
    } else {
        assert(s.take(i) =~= s);
    }
}

/// Entries added later win over earlier ones: the catalog of `a + b` is the
/// catalog of `a` overlaid with that of `b`.
pub proof fn lemma_entries_map_concat(a: Seq<Entry>, b: Seq<Entry>)
    ensures
        entries_map(a + b) == entries_map(a).union_prefer_right(entries_map(b)),
    decreases b.len(),
{
    if b.len() == 0 {
        assert(a + b =~= a);
        assert(entries_map(a).union_prefer_right(entries_map(b)) =~= entries_map(a));
    } else {
        lemma_entries_map_concat(a, b.drop_last());
        assert((a + b).drop_last() =~= a + b.drop_last());
        assert((a + b).last() == b.last());
        assert(entries_map(a + b) =~= entries_map(a).union_prefer_right(entries_map(b)));
    }
}

/// The English catalog as a list.
pub fn en_us_messages() -> (r: Vec<(&'static str, &'static str)>)
    ensures
        r@ == EN_US_MESSAGES@,
{
    let mut v: Vec<(&'static str, &'static str)> = Vec::new();
    let mut i: usize = 0;
    while i < EN_US_MESSAGES.len()
        invariant
            i <= EN_US_MESSAGES@.len(),
            v@ == EN_US_MESSAGES@.take(i as int),
        decreases EN_US_MESSAGES@.len() - i,
    {
        v.push(EN_US_MESSAGES[i]);
        i = i + 1;
        assert(v@ =~= EN_US_MESSAGES@.take(i as int));
    }
    assert(EN_US_MESSAGES@.take(i as int) =~= EN_US_MESSAGES@);
    v
}

/// The simplified-Chinese catalog as a list.
pub fn zh_cn_messages() -> (r: Vec<(&'static str, &'static str)>)
    ensures
        r@ == ZH_CN_MESSAGES@,
{
    let mut v: Vec<(&'static str, &'static str)> = Vec::new();
    let mut i: usize = 0;
    while i < ZH_CN_MESSAGES.len()
        invariant
            i <= ZH_CN_MESSAGES@.len(),
            v@ == ZH_CN_MESSAGES@.take(i as int),
        decreases ZH_CN_MESSAGES@.len() - i,
    {
        v.push(ZH_CN_MESSAGES[i]);
        i = i + 1;
        assert(v@ =~= ZH_CN_MESSAGES@.take(i as int));
    }
    assert(ZH_CN_MESSAGES@.take(i as int) =~= ZH_CN_MESSAGES@);
    v
}

/// The built-in catalog for a locale, as owned entries.
pub fn builtin_messages(locale: &str) -> (r: Vec<(String, String)>)
    ensures
        messages_view(r@) == builtin_entries(locale@),
{
    let table = if same_text(locale, "zh_CN") {
        zh_cn_messages()
    } else {
        en_us_messages()
    };
    let mut out: Vec<(String, String)> = Vec::new();
    let mut i: usize = 0;
    while i < table.len()
        invariant
            i <= table@.len(),
            messages_view(out@) == table_entries(table@).take(i as int),
        decreases table.len() - i,
    {
        let ghost before = out@;
        let (k, v) = table[i];
        let pair = (owned(k), owned(v));
        out.push(pair);
        proof {
            assert(messages_view(out@) =~= messages_view(before).push((k@, v@)));
            assert(table_entries(table@)[i as int] == (k@, v@));
            assert(table_entries(table@).take(i + 1) =~= table_entries(table@).take(
                i as int,
            ).push((k@, v@)));
        }
        i = i + 1;
    }
    assert(table_entries(table@).take(i as int) =~= table_entries(table@));
    out
}

/// Appends entries at the end of a catalog list, so that they win.
fn extend_messages(messages: &mut Vec<(String, String)>, more: &Vec<(String, String)>)
    ensures
        messages_view(final(messages)@) == messages_view(old(messages)@) + messages_view(more@),
{
    let ghost start = messages_view(messages@);
    let mut i: usize = 0;
    while i < more.len()
        invariant
            i <= more@.len(),
            messages_view(messages@) == start + messages_view(more@).take(i as int),
        decreases more.len() - i,
    {
        let ghost before = messages@;
        let k = more[i].0.clone();
        let v = more[i].1.clone();
        messages.push((k, v));
        proof {
            assert(messages_view(messages@) =~= messages_view(before).push((k@, v@)));
            assert(messages_view(more@)[i as int] == (k@, v@));
            assert(messages_view(more@).take(i + 1) =~= messages_view(more@).take(i as int).push(
                (k@, v@),
            ));
        }
        i = i + 1;
    }
    proof {
        assert(messages_view(more@).take(i as int) =~= messages_view(more@));
    }
}

/// The members of a JSON object that are strings, as catalog entries.
fn string_entries(members: Vec<(String, Option<String>)>) -> (r: Vec<(String, String)>)
    ensures
        messages_view(r@) == string_members(members@.map_values(
            |m: (String, Option<String>)| member_view(m),
        )),
{
    let ghost ms = members@.map_values(|m: (String, Option<String>)| member_view(m));
    let mut members = members;
    let mut out: Vec<(String, String)> = Vec::new();
    let n = members.len();
    // Take the members off the back, then put them back in order.
    let mut back: Vec<(String, Option<String>)> = Vec::new();
    while members.len() > 0
        invariant
            members@.len() + back@.len() == n,
            n == ms.len(),
            forall|k: int| 0 <= k < members@.len() ==> member_view(#[trigger] members@[k]) == ms[k],
            forall|k: int|
                0 <= k < back@.len() ==> member_view(#[trigger] back@[k]) == ms[n - 1 - k],
        decreases members.len(),
    {
        let m = members.pop().unwrap();
        back.push(m);
    }
    while back.len() > 0
        invariant
            back@.len() <= n,
            n == ms.len(),
            forall|k: int|
                0 <= k < back@.len() ==> member_view(#[trigger] back@[k]) == ms[n - 1 - k],
            messages_view(out@) == string_members(ms.take(n - back@.len())),
        decreases back.len(),
    {
        let ghost done = n - back@.len();
        let m = back.pop().unwrap();
        proof {
            assert(member_view(m) == ms[done]);
            assert(ms.take(done + 1).drop_last() =~= ms.take(done));
            assert(ms.take(done + 1).last() == ms[done]);
        }
        let (k, v) = m;
        match v {
            Some(text) => {
                out.push((k, text));
                proof {
                    assert(messages_view(out@) =~= string_members(ms.take(done + 1)));
                }
            },
            None => {
                proof {
                    assert(messages_view(out@) =~= string_members(ms.take(done + 1)));
                }
            },
        }
    }
    proof {
        assert(ms.take(n as int) =~= ms);
    }
    out
}

impl I18n {
    /// The locale this catalog is for.
    pub closed spec fn locale_spec(&self) -> Seq<char> {
        self.locale@
    }

    /// The catalog's entries, later ones winning.
    pub closed spec fn entries(&self) -> Seq<Entry> {
        messages_view(self.messages@)
    }

    /// The catalog as a map from keys to texts.
    pub open spec fn catalog(&self) -> Map<Seq<char>, Seq<char>> {
        entries_map(self.entries())
    }

    /// Builds the catalog for a locale: the built-in entries, overlaid with
    /// the custom pack when its file's bytes are given. The path of the pack
    /// is `custom_locale_path(i18n_dir, locale)`.
    pub fn load(locale: &str, i18n_dir: &str, custom: Option<&[u8]>) -> (r: AppResult<I18n>)
        ensures
            load_spec(
                locale@,
                i18n_dir@,
                match custom {
                    Some(b) => Some(b@),
                    None => None,
                },
            ) == match r {
                Ok(i) => Ok((i.locale_spec(), i.entries())),
                Err(e) => Err(e@),
            },
    {
        let i = I18n::builtin(locale);
        let name = i.locale;
        let mut messages = i.messages;
        let locale_param = locale;
        let locale = name;
        match custom {
            None => Ok(I18n { locale, messages }),
            Some(bytes) => {
                let path = custom_locale_path(i18n_dir, locale_param);
                match parse_json_members(bytes) {
                    Err(details) => Err(AppError::InvalidLocaleFile { path, details }),
                    Ok(None) => Err(
                        AppError::InvalidLocaleFile {
                            path,
                            details: owned("locale file must be a flat JSON object"),
                        },
                    ),
                    Ok(Some(members)) => {
                        let more = string_entries(members);
                        extend_messages(&mut messages, &more);
                        Ok(I18n { locale, messages })
                    },
                }
            },
        }
    }

    /// The catalog of a locale from the built-in catalogs alone: English,
    /// overlaid with the locale's own when it has one.
    pub fn builtin(locale: &str) -> (r: I18n)
        ensures
            r.locale_spec() == normalize_locale_spec(locale@),
            r.entries() == base_entries(normalize_locale_spec(locale@)),
    {
        let name = normalize_locale(locale);
        proof {
            reveal_strlit("en_US");
            reveal_strlit("zh_CN");
        }
        let mut messages = builtin_messages(DEFAULT_LOCALE);
        assert(DEFAULT_LOCALE@ == "en_US"@);
        assert("en_US"@[0] != "zh_CN"@[0]);
        assert(messages_view(messages@) == en_us_entries());
        let builtin = same_text(name.as_str(), "en_US") || same_text(name.as_str(), "zh_CN");
        if !same_text(name.as_str(), DEFAULT_LOCALE) && builtin {
            let more = builtin_messages(name.as_str());
            extend_messages(&mut messages, &more);
        }
        I18n { locale: name, messages }
    }

    /// The locale this catalog is for.
    pub fn locale(&self) -> (r: &str)
        ensures
            r@ == self.locale_spec(),
    {
        self.locale.as_str()
    }

    /// The text for a key; the key itself when the catalog lacks it.
    pub fn t(&self, key: &str) -> (r: String)
        ensures
            r@ == lookup(self.catalog(), key@),
    {
        let wanted = owned(key);
        let ghost s = self.entries();
        let mut i: usize = self.messages.len();
        while i > 0
            invariant
                i <= self.messages@.len(),
                s == self.entries(),
                s.len() == self.messages@.len(),
                wanted@ == key@,
                forall|j: int| i <= j < s.len() ==> (#[trigger] s[j]).0 != key@,
            decreases i,
        {
            assert(s[i - 1] == (self.messages@[i - 1].0@, self.messages@[i - 1].1@));
            if self.messages[i - 1].0 == wanted {
                proof {
                    lemma_entries_map_last(s, key@, i as int);
                    assert(s.take(i as int).drop_last() =~= s.take(i - 1));
                }
                return self.messages[i - 1].1.clone();
            }
            i = i - 1;
        }
        proof {
            lemma_entries_map_last(s, key@, 0);
            assert(s.take(0) =~= Seq::<Entry>::empty());
        }
        wanted
    }

    /// The text for a key with each `{name}` replaced by its value.
    pub fn t_fmt(&self, key: &str, params: &[(&str, String)]) -> (r: String)
        ensures
            r@ == fill_params(lookup(self.catalog(), key@), params_view(params@)),
    {
        let mut text = self.t(key);
        let mut i: usize = 0;
        while i < params.len()
            invariant
                i <= params@.len(),
                text@ == fill_params(
                    lookup(self.catalog(), key@),
                    params_view(params@).take(i as int),
                ),
            decreases params.len() - i,
        {
            let (name, value) = &params[i];
            let mut pattern = owned("{");
            append_str(&mut pattern, name);
            append_str(&mut pattern, "}");
            proof {
                reveal_strlit("{");
                reveal_strlit("}");
                assert(pattern@ =~= placeholder(name@));
                assert(params_view(params@).take(i + 1).drop_last() =~= params_view(
                    params@,
                ).take(i as int));
                assert(params_view(params@).take(i + 1).last() == (name@, value@));
            }
            text = replace_all(text.as_str(), pattern.as_str(), value.as_str());
            i = i + 1;
        }
        proof {
            assert(params_view(params@).take(i as int) =~= params_view(params@));
        }
        text
    }
}

/// The display name of a locale.
pub open spec fn locale_display_name_spec(locale: Seq<char>) -> Seq<char> {
    if locale == "en_US"@ {
        "English (United States)"@
    } else if locale == "zh_CN"@ {
        "简体中文 (中国)"@
    } else {
        "Custom language"@
    }
}

/// The display name of a locale.
pub fn locale_display_name(locale: &str) -> (r: &'static str)
    ensures
        r@ == locale_display_name_spec(locale@),
{
    if same_text(locale, "en_US") {
        "English (United States)"
    } else if same_text(locale, "zh_CN") {
        "简体中文 (中国)"
    } else {
        "Custom language"
    }
}

/// A locale name trimmed, or the default locale when blank.
pub fn normalize_locale(locale: &str) -> (r: String)
    ensures
        r@ == normalize_locale_spec(locale@),
{
    let trimmed = trim(locale);
    if trimmed.as_str().unicode_len() == 0 {
        owned(DEFAULT_LOCALE)
    } else {
        trimmed
    }
}

/// Where the custom pack of a locale lives: `<i18n_dir>/<locale>.json`, the
/// locale normalized first.
pub fn custom_locale_path(i18n_dir: &str, locale: &str) -> (r: String)
    ensures
        r@ == custom_locale_path_spec(i18n_dir@, locale@),
{
    let mut name = normalize_locale(locale);
    append_str(&mut name, ".json");
    path_join(i18n_dir, name.as_str())
}

/// The texts of a list of strings.
pub open spec fn texts(v: Seq<String>) -> Seq<Seq<char>> {
    v.map_values(|s: String| s@)
}

/// Whether the texts in `s` are strictly increasing.
pub open spec fn strictly_sorted(s: Seq<Seq<char>>) -> bool {
    forall|i: int, j: int| 0 <= i < j < s.len() ==> text_lt_spec(#[trigger] s[i], #[trigger] s[j])
}

/// The option list of the language picker: the built-in locales, then the
/// custom ones in sorted order, each once and none that is built in.
pub open spec fn is_locale_option_list(
    options: Seq<OptionView>,
    custom_stems: Seq<Seq<char>>,
    current: Seq<char>,
) -> bool {
    &&& options.len() >= 2
    &&& options[0].locale == "en_US"@ && options[0].source == LocaleSource::Builtin
    &&& options[1].locale == "zh_CN"@ && options[1].source == LocaleSource::Builtin
    &&& forall|i: int|
        0 <= i < options.len() ==> (#[trigger] options[i]).is_current == (options[i].locale
            == current)
    &&& forall|i: int| 2 <= i < options.len() ==> (#[trigger] options[i]).source == LocaleSource::Custom
    &&& strictly_sorted(options.skip(2).map_values(|o: OptionView| o.locale))
    &&& forall|x: Seq<char>|
        options.skip(2).map_values(|o: OptionView| o.locale).contains(x) <==> (
        custom_stems.contains(x) && !is_builtin_locale(x))
}

/// The views of a list of options.
pub open spec fn options_view(o: Seq<LocaleOption>) -> Seq<OptionView> {
    o.map_values(|x: LocaleOption| x@)
}

/// Inserts a locale into a strictly increasing list unless it is there.
fn insert_sorted_unique(list: &mut Vec<String>, x: String)
    requires
        strictly_sorted(texts(old(list)@)),
    ensures
        strictly_sorted(texts(final(list)@)),
        forall|y: Seq<char>|
            #[trigger] texts(final(list)@).contains(y) <==> (texts(old(list)@).contains(y) || y
                == x@),
{
    let ghost before = texts(list@);
    let mut p: usize = 0;
    while p < list.len() && text_lt(list[p].as_str(), x.as_str())
        invariant
            p <= list@.len(),
            before == texts(list@),
            strictly_sorted(before),
            forall|k: int| 0 <= k < p ==> text_lt_spec(#[trigger] before[k], x@),
        decreases list.len() - p,
    {
        p = p + 1;
    }
    if p < list.len() && same_text(list[p].as_str(), x.as_str()) {
        assert(before[p as int] == x@);
        assert forall|y: Seq<char>| before.contains(y) <==> (before.contains(y) || y == x@) by {
            if y == x@ {
                assert(before[p as int] == y);
            }
        }
        return ;
    }
    proof {
        if p < list@.len() {
            assert(before[p as int] != x@);
            lemma_text_lt_total(before[p as int], x@);
        }
    }
    list.insert(p, x);
    proof {
        let after = texts(list@);
        assert(after =~= before.insert(p as int, x@));
        assert forall|i: int, j: int| 0 <= i < j < after.len() implies text_lt_spec(
            #[trigger] after[i],
            #[trigger] after[j],
        ) by {
            if j < p {
            } else if i < p && j == p {
            } else if i < p {
                assert(after[j] == before[j - 1]);
                if j - 1 > p {
                    lemma_text_lt_transitive(x@, before[p as int], before[j - 1]);
                }
                lemma_text_lt_transitive(after[i], x@, after[j]);
            } else if i == p {
                assert(after[j] == before[j - 1]);
                if j - 1 > p {
                    lemma_text_lt_transitive(x@, before[p as int], before[j - 1]);
                }
            } else {
                assert(after[i] == before[i - 1]);
                assert(after[j] == before[j - 1]);
            }
        }
        assert forall|y: Seq<char>| after.contains(y) <==> (before.contains(y) || y == x@) by {
            if after.contains(y) {
                let k = choose|k: int| 0 <= k < after.len() && after[k] == y;
                if k < p {
                    assert(before[k] == y);
                } else if k > p {
                    assert(before[k - 1] == y);
                }
            }
            if before.contains(y) {
                let k = choose|k: int| 0 <= k < before.len() && before[k] == y;
                if k < p {
                    assert(after[k] == y);
                } else {
                    assert(after[k + 1] == y);
                }
            }
            if y == x@ {
                assert(after[p as int] == y);
            }
        }
    }
}

/// The options of the language picker, given the stems of the `.json` files
/// in the catalog directory: the built-in locales first, then the custom ones
/// in sorted order, each once; the current locale is marked.
pub fn available_locales(custom_stems: Vec<String>, current_locale: &str) -> (r: Vec<LocaleOption>)
    ensures
        is_locale_option_list(options_view(r@), texts(custom_stems@), current_locale@),
{
    let ghost stems = texts(custom_stems@);
    let mut customs: Vec<String> = Vec::new();
    let mut stems_left = custom_stems;
    let ghost mut seen: Seq<Seq<char>> = Seq::empty();
    proof {
        assert(texts(customs@) =~= Seq::<Seq<char>>::empty());
        assert(texts(stems_left@) =~= stems);
    }
    while stems_left.len() > 0
        invariant
            strictly_sorted(texts(customs@)),
            stems == seen + texts(stems_left@),
            forall|y: Seq<char>|
                #[trigger] texts(customs@).contains(y) <==> (seen.contains(y)
                    && !is_builtin_locale(y)),
        decreases stems_left.len(),
    {
        let ghost left = texts(stems_left@);
        let x = stems_left.remove(0);
        proof {
            assert(left[0] == x@);
            assert(texts(stems_left@) =~= left.drop_first());
            assert(seen + left =~= seen.push(x@) + left.drop_first());
        }
        let builtin = same_text(x.as_str(), "en_US") || same_text(x.as_str(), "zh_CN");
        let ghost xv = x@;
        let ghost old_customs = texts(customs@);
        if !builtin {
            insert_sorted_unique(&mut customs, x);
        }
        proof {
            assert forall|y: Seq<char>| #[trigger] texts(customs@).contains(y) <==> (
            old_customs.contains(y) || (y == xv && !is_builtin_locale(y))) by {
                if !builtin {
                    assert(texts(customs@).contains(y) <==> (old_customs.contains(y) || y == xv));
                }
            }
            assert forall|y: Seq<char>| seen.push(xv).contains(y) <==> (seen.contains(y) || y
                == xv) by {
                if seen.push(xv).contains(y) {
                    let k = choose|k: int| 0 <= k < seen.push(xv).len() && seen.push(xv)[k] == y;
                    if k < seen.len() {
                        assert(seen[k] == y);
                    }
                }
                if seen.contains(y) {
                    let k = choose|k: int| 0 <= k < seen.len() && seen[k] == y;
                    assert(seen.push(xv)[k] == y);
                }
                if y == xv {
                    assert(seen.push(xv)[seen.len() as int] == y);
                }
            }
            seen = seen.push(xv);
        }
    }
    proof {
        assert(seen =~= stems);
    }
    let mut options: Vec<LocaleOption> = Vec::new();
    options.push(
        LocaleOption {
            locale: owned("en_US"),
            source: LocaleSource::Builtin,
            is_current: same_text("en_US", current_locale),
        },
    );
    options.push(
        LocaleOption {
            locale: owned("zh_CN"),
            source: LocaleSource::Builtin,
            is_current: same_text("zh_CN", current_locale),
        },
    );
    let ghost cs = texts(customs@);
    let mut i: usize = 0;
    while i < customs.len()
        invariant
            i <= customs@.len(),
            cs == texts(customs@),
            options@.len() == 2 + i,
            options@[0].locale@ == "en_US"@ && options@[0].source == LocaleSource::Builtin,
            options@[1].locale@ == "zh_CN"@ && options@[1].source == LocaleSource::Builtin,
            forall|k: int|
                0 <= k < options@.len() ==> (#[trigger] options@[k]).is_current == (
                options@[k].locale@ == current_locale@),
            forall|k: int|
                2 <= k < options@.len() ==> (#[trigger] options@[k]).source == LocaleSource::Custom
                    && options@[k].locale@ == cs[k - 2],
        decreases customs.len() - i,
    {
        let name = customs[i].clone();
        let current = same_text(name.as_str(), current_locale);
        options.push(LocaleOption { locale: name, source: LocaleSource::Custom, is_current: current });
        i = i + 1;
    }
    proof {
        assert(options_view(options@).skip(2).map_values(|o: OptionView| o.locale) =~= cs);
    }
    options
}

/// The text a layered catalog gives a key: the custom pack's when it has
/// the key, else the locale's own built-in one when there is one with the
/// key, else the English one (or the key itself).
pub open spec fn layered_text(loc: Seq<char>, pack: Seq<Entry>, key: Seq<char>) -> Seq<char> {
    if entries_map(pack).contains_key(key) {
        entries_map(pack)[key]
    } else if loc == "zh_CN"@ && entries_map(zh_cn_entries()).contains_key(key) {
        entries_map(zh_cn_entries())[key]
    } else {
        lookup(entries_map(en_us_entries()), key)
    }
}

/// Law: a catalog is English overlaid with the locale's built-in texts and
/// then with the custom pack, so every key a pack lacks falls back to the
/// built-in texts, and English is the last resort.
pub proof fn law_catalog_fallback(
    locale: Seq<char>,
    i18n_dir: Seq<char>,
    custom: Option<Seq<u8>>,
    key: Seq<char>,
)
    ensures
        load_spec(locale, i18n_dir, custom) matches Ok((loc, es)) ==> loc == normalize_locale_spec(
            locale,
        ) && lookup(entries_map(es), key) == layered_text(
            loc,
            match custom {
                Some(b) => match json_members(b) {
                    Ok(Some(ms)) => string_members(ms),
                    _ => Seq::empty(),
                },
                None => Seq::empty(),
            },
            key,
        ),
        custom is None ==> load_spec(locale, i18n_dir, custom) is Ok,
{
    let loc = normalize_locale_spec(locale);
    let pack: Seq<Entry> = match custom {
        Some(b) => match json_members(b) {
            Ok(Some(ms)) => string_members(ms),
            _ => Seq::empty(),
        },
        None => Seq::empty(),
    };
    reveal_strlit("zh_CN");
    reveal_strlit("en_US");
    assert("zh_CN"@ != "en_US"@) by {
        assert("zh_CN"@[0] != "en_US"@[0]);
    }
    let base = base_entries(loc);
    lemma_entries_map_concat(base, pack);
    lemma_entries_map_concat(en_us_entries(), zh_cn_entries());
    let layered = entries_map(base + pack);
    if custom is None {
        assert(pack == Seq::<Entry>::empty());
        assert(base + pack =~= base);
    }
    assert(entries_map(base) == if loc == "zh_CN"@ {
        entries_map(en_us_entries() + zh_cn_entries())
    } else {
        entries_map(en_us_entries())
    });
    assert(lookup(layered, key) == layered_text(loc, pack, key));
}


/// No English key after the three short priority keys (positions 74, 75
/// and 76) equals one of them. The solver does not go through the table on
/// its own, so each later position is named, with where its key differs.
proof fn lemma_no_later_short_key()
    ensures
        forall|j: int|
            74 < j < 148 ==> ((#[trigger] en_us_entries()[j]).0 != "form.priority.p1.short"@
                && (j > 75 ==> en_us_entries()[j].0 != "form.priority.p2.short"@) && (j > 76
                ==> en_us_entries()[j].0 != "form.priority.p3.short"@)),
{
    let s = en_us_entries();
    reveal_strlit("form.priority.p2.short");
    reveal_strlit("form.priority.p3.short");
    reveal_strlit("form.placeholder.title");
    reveal_strlit("form.placeholder.notes");
    reveal_strlit("form.placeholder.due_date");
    reveal_strlit("form.footer.fields");
    reveal_strlit("form.footer.save");
    reveal_strlit("form.footer.cancel");
    reveal_strlit("form.footer.adjust_priority");
    reveal_strlit("form.footer.pick_priority");
    reveal_strlit("modal.delete.title");
    reveal_strlit("modal.delete.badge");
    reveal_strlit("modal.delete.body");
    reveal_strlit("modal.delete.priority");
    reveal_strlit("modal.delete.due");
    reveal_strlit("modal.delete.controls");
    reveal_strlit("modal.search.title");
    reveal_strlit("modal.search.badge");
    reveal_strlit("modal.search.body");
    reveal_strlit("modal.search.placeholder");
    reveal_strlit("modal.search.current");
    reveal_strlit("modal.search.controls");
    reveal_strlit("modal.search.clear");
    reveal_strlit("modal.help.title");
    reveal_strlit("modal.help.nav");
    reveal_strlit("modal.help.form");
    reveal_strlit("modal.help.view");
    reveal_strlit("modal.help.locale");
    reveal_strlit("modal.help.move");
    reveal_strlit("modal.help.new");
    reveal_strlit("modal.help.edit");
    reveal_strlit("modal.help.set_priority");
    reveal_strlit("modal.help.toggle_done");
    reveal_strlit("modal.help.search");
    reveal_strlit("modal.help.filter");
    reveal_strlit("modal.help.delete");
    reveal_strlit("modal.help.quit");
    reveal_strlit("modal.help.locale_switch");
    reveal_strlit("modal.help.form.body");
    reveal_strlit("modal.help.form.priority");
    reveal_strlit("modal.help.view.body");
    reveal_strlit("modal.help.close");
    reveal_strlit("modal.locale.title");
    reveal_strlit("modal.locale.badge");
    reveal_strlit("modal.locale.current");
    reveal_strlit("modal.locale.builtin");
    reveal_strlit("modal.locale.custom");
    reveal_strlit("modal.locale.controls");
    reveal_strlit("filter.all");
    reveal_strlit("filter.active");
    reveal_strlit("filter.done");
    reveal_strlit("filter.due_today");
    reveal_strlit("filter.overdue");
    reveal_strlit("status.active");
    reveal_strlit("status.done");
    reveal_strlit("due.overdue");
    reveal_strlit("due.today");
    reveal_strlit("due.upcoming");
    reveal_strlit("due.none");
    reveal_strlit("list.due.overdue");
    reveal_strlit("list.due.today");
    reveal_strlit("list.due.date");
    reveal_strlit("list.due.none");
    reveal_strlit("message.config_reset");
    reveal_strlit("error.prefix");
    reveal_strlit("error.io");
    reveal_strlit("error.json");
    reveal_strlit("error.missing_home");
    reveal_strlit("error.invalid_due_date");
    reveal_strlit("error.empty_title");
    reveal_strlit("error.corrupted_data");
    reveal_strlit("error.invalid_locale_file");
    reveal_strlit("error.invalid_config");
    reveal_strlit("form.priority.p1.short");
    reveal_strlit("form.priority.p2.short");
    reveal_strlit("form.priority.p3.short");
    assert forall|j: int| 74 < j < 148 implies ((#[trigger] s[j]).0 != "form.priority.p1.short"@
        && (j > 75 ==> s[j].0 != "form.priority.p2.short"@) && (j > 76 ==> s[j].0
        != "form.priority.p3.short"@)) by {
        if j == 75 {
            assert("form.priority.p2.short"@[15] != "form.priority.p1.short"@[15]);
        } else if j == 76 {
            assert("form.priority.p3.short"@[15] != "form.priority.p1.short"@[15] && "form.priority.p3.short"@[15] != "form.priority.p2.short"@[15]);
        } else if j == 77 {
            assert("form.placeholder.title"@[6] != "form.priority.p1.short"@[6] && "form.placeholder.title"@[6] != "form.priority.p2.short"@[6] && "form.placeholder.title"@[6] != "form.priority.p3.short"@[6]);
        } else if j == 78 {
            assert("form.placeholder.notes"@[6] != "form.priority.p1.short"@[6] && "form.placeholder.notes"@[6] != "form.priority.p2.short"@[6] && "form.placeholder.notes"@[6] != "form.priority.p3.short"@[6]);
        } else if j == 79 {
            assert("form.placeholder.due_date"@.len() != "form.priority.p1.short"@.len() && "form.placeholder.due_date"@.len() != "form.priority.p2.short"@.len() && "form.placeholder.due_date"@.len() != "form.priority.p3.short"@.len());
        } else if j == 80 {
            assert("form.footer.fields"@.len() != "form.priority.p1.short"@.len() && "form.footer.fields"@.len() != "form.priority.p2.short"@.len() && "form.footer.fields"@.len() != "form.priority.p3.short"@.len());
        } else if j == 81 {
            assert("form.footer.save"@.len() != "form.priority.p1.short"@.len() && "form.footer.save"@.len() != "form.priority.p2.short"@.len() && "form.footer.save"@.len() != "form.priority.p3.short"@.len());
        } else if j == 82 {
            assert("form.footer.cancel"@.len() != "form.priority.p1.short"@.len() && "form.footer.cancel"@.len() != "form.priority.p2.short"@.len() && "form.footer.cancel"@.len() != "form.priority.p3.short"@.len());
        } else if j == 83 {
            assert("form.footer.adjust_priority"@.len() != "form.priority.p1.short"@.len() && "form.footer.adjust_priority"@.len() != "form.priority.p2.short"@.len() && "form.footer.adjust_priority"@.len() != "form.priority.p3.short"@.len());
        } else if j == 84 {
            assert("form.footer.pick_priority"@.len() != "form.priority.p1.short"@.len() && "form.footer.pick_priority"@.len() != "form.priority.p2.short"@.len() && "form.footer.pick_priority"@.len() != "form.priority.p3.short"@.len());
        } else if j == 85 {
            assert("modal.delete.title"@.len() != "form.priority.p1.short"@.len() && "modal.delete.title"@.len() != "form.priority.p2.short"@.len() && "modal.delete.title"@.len() != "form.priority.p3.short"@.len());
        } else if j == 86 {
            assert("modal.delete.badge"@.len() != "form.priority.p1.short"@.len() && "modal.delete.badge"@.len() != "form.priority.p2.short"@.len() && "modal.delete.badge"@.len() != "form.priority.p3.short"@.len());
        } else if j == 87 {
            assert("modal.delete.body"@.len() != "form.priority.p1.short"@.len() && "modal.delete.body"@.len() != "form.priority.p2.short"@.len() && "modal.delete.body"@.len() != "form.priority.p3.short"@.len());
        } else if j == 88 {
            assert("modal.delete.priority"@.len() != "form.priority.p1.short"@.len() && "modal.delete.priority"@.len() != "form.priority.p2.short"@.len() && "modal.delete.priority"@.len() != "form.priority.p3.short"@.len());
        } else if j == 89 {
            assert("modal.delete.due"@.len() != "form.priority.p1.short"@.len() && "modal.delete.due"@.len() != "form.priority.p2.short"@.len() && "modal.delete.due"@.len() != "form.priority.p3.short"@.len());
        } else if j == 90 {
            assert("modal.delete.controls"@.len() != "form.priority.p1.short"@.len() && "modal.delete.controls"@.len() != "form.priority.p2.short"@.len() && "modal.delete.controls"@.len() != "form.priority.p3.short"@.len());
        } else if j == 91 {
            assert("modal.search.title"@.len() != "form.priority.p1.short"@.len() && "modal.search.title"@.len() != "form.priority.p2.short"@.len() && "modal.search.title"@.len() != "form.priority.p3.short"@.len());
        } else if j == 92 {
            assert("modal.search.badge"@.len() != "form.priority.p1.short"@.len() && "modal.search.badge"@.len() != "form.priority.p2.short"@.len() && "modal.search.badge"@.len() != "form.priority.p3.short"@.len());
        } else if j == 93 {
            assert("modal.search.body"@.len() != "form.priority.p1.short"@.len() && "modal.search.body"@.len() != "form.priority.p2.short"@.len() && "modal.search.body"@.len() != "form.priority.p3.short"@.len());
        } else if j == 94 {
            assert("modal.search.placeholder"@.len() != "form.priority.p1.short"@.len() && "modal.search.placeholder"@.len() != "form.priority.p2.short"@.len() && "modal.search.placeholder"@.len() != "form.priority.p3.short"@.len());
        } else if j == 95 {
            assert("modal.search.current"@.len() != "form.priority.p1.short"@.len() && "modal.search.current"@.len() != "form.priority.p2.short"@.len() && "modal.search.current"@.len() != "form.priority.p3.short"@.len());
        } else if j == 96 {
            assert("modal.search.controls"@.len() != "form.priority.p1.short"@.len() && "modal.search.controls"@.len() != "form.priority.p2.short"@.len() && "modal.search.controls"@.len() != "form.priority.p3.short"@.len());
        } else if j == 97 {
            assert("modal.search.clear"@.len() != "form.priority.p1.short"@.len() && "modal.search.clear"@.len() != "form.priority.p2.short"@.len() && "modal.search.clear"@.len() != "form.priority.p3.short"@.len());
        } else if j == 98 {
            assert("modal.help.title"@.len() != "form.priority.p1.short"@.len() && "modal.help.title"@.len() != "form.priority.p2.short"@.len() && "modal.help.title"@.len() != "form.priority.p3.short"@.len());
        } else if j == 99 {
            assert("modal.help.nav"@.len() != "form.priority.p1.short"@.len() && "modal.help.nav"@.len() != "form.priority.p2.short"@.len() && "modal.help.nav"@.len() != "form.priority.p3.short"@.len());
        } else if j == 100 {
            assert("modal.help.form"@.len() != "form.priority.p1.short"@.len() && "modal.help.form"@.len() != "form.priority.p2.short"@.len() && "modal.help.form"@.len() != "form.priority.p3.short"@.len());
        } else if j == 101 {
            assert("modal.help.view"@.len() != "form.priority.p1.short"@.len() && "modal.help.view"@.len() != "form.priority.p2.short"@.len() && "modal.help.view"@.len() != "form.priority.p3.short"@.len());
        } else if j == 102 {
            assert("modal.help.locale"@.len() != "form.priority.p1.short"@.len() && "modal.help.locale"@.len() != "form.priority.p2.short"@.len() && "modal.help.locale"@.len() != "form.priority.p3.short"@.len());
        } else if j == 103 {
            assert("modal.help.move"@.len() != "form.priority.p1.short"@.len() && "modal.help.move"@.len() != "form.priority.p2.short"@.len() && "modal.help.move"@.len() != "form.priority.p3.short"@.len());
        } else if j == 104 {
            assert("modal.help.new"@.len() != "form.priority.p1.short"@.len() && "modal.help.new"@.len() != "form.priority.p2.short"@.len() && "modal.help.new"@.len() != "form.priority.p3.short"@.len());
        } else if j == 105 {
            assert("modal.help.edit"@.len() != "form.priority.p1.short"@.len() && "modal.help.edit"@.len() != "form.priority.p2.short"@.len() && "modal.help.edit"@.len() != "form.priority.p3.short"@.len());
        } else if j == 106 {
            assert("modal.help.set_priority"@.len() != "form.priority.p1.short"@.len() && "modal.help.set_priority"@.len() != "form.priority.p2.short"@.len() && "modal.help.set_priority"@.len() != "form.priority.p3.short"@.len());
        } else if j == 107 {
            assert("modal.help.toggle_done"@[0] != "form.priority.p1.short"@[0] && "modal.help.toggle_done"@[0] != "form.priority.p2.short"@[0] && "modal.help.toggle_done"@[0] != "form.priority.p3.short"@[0]);
        } else if j == 108 {
            assert("modal.help.search"@.len() != "form.priority.p1.short"@.len() && "modal.help.search"@.len() != "form.priority.p2.short"@.len() && "modal.help.search"@.len() != "form.priority.p3.short"@.len());
        } else if j == 109 {
            assert("modal.help.filter"@.len() != "form.priority.p1.short"@.len() && "modal.help.filter"@.len() != "form.priority.p2.short"@.len() && "modal.help.filter"@.len() != "form.priority.p3.short"@.len());
        } else if j == 110 {
            assert("modal.help.delete"@.len() != "form.priority.p1.short"@.len() && "modal.help.delete"@.len() != "form.priority.p2.short"@.len() && "modal.help.delete"@.len() != "form.priority.p3.short"@.len());
        } else if j == 111 {
            assert("modal.help.quit"@.len() != "form.priority.p1.short"@.len() && "modal.help.quit"@.len() != "form.priority.p2.short"@.len() && "modal.help.quit"@.len() != "form.priority.p3.short"@.len());
        } else if j == 112 {
            assert("modal.help.locale_switch"@.len() != "form.priority.p1.short"@.len() && "modal.help.locale_switch"@.len() != "form.priority.p2.short"@.len() && "modal.help.locale_switch"@.len() != "form.priority.p3.short"@.len());
        } else if j == 113 {
            assert("modal.help.form.body"@.len() != "form.priority.p1.short"@.len() && "modal.help.form.body"@.len() != "form.priority.p2.short"@.len() && "modal.help.form.body"@.len() != "form.priority.p3.short"@.len());
        } else if j == 114 {
            assert("modal.help.form.priority"@.len() != "form.priority.p1.short"@.len() && "modal.help.form.priority"@.len() != "form.priority.p2.short"@.len() && "modal.help.form.priority"@.len() != "form.priority.p3.short"@.len());
        } else if j == 115 {
            assert("modal.help.view.body"@.len() != "form.priority.p1.short"@.len() && "modal.help.view.body"@.len() != "form.priority.p2.short"@.len() && "modal.help.view.body"@.len() != "form.priority.p3.short"@.len());
        } else if j == 116 {
            assert("modal.help.close"@.len() != "form.priority.p1.short"@.len() && "modal.help.close"@.len() != "form.priority.p2.short"@.len() && "modal.help.close"@.len() != "form.priority.p3.short"@.len());
        } else if j == 117 {
            assert("modal.locale.title"@.len() != "form.priority.p1.short"@.len() && "modal.locale.title"@.len() != "form.priority.p2.short"@.len() && "modal.locale.title"@.len() != "form.priority.p3.short"@.len());
        } else if j == 118 {
            assert("modal.locale.badge"@.len() != "form.priority.p1.short"@.len() && "modal.locale.badge"@.len() != "form.priority.p2.short"@.len() && "modal.locale.badge"@.len() != "form.priority.p3.short"@.len());
        } else if j == 119 {
            assert("modal.locale.current"@.len() != "form.priority.p1.short"@.len() && "modal.locale.current"@.len() != "form.priority.p2.short"@.len() && "modal.locale.current"@.len() != "form.priority.p3.short"@.len());
        } else if j == 120 {
            assert("modal.locale.builtin"@.len() != "form.priority.p1.short"@.len() && "modal.locale.builtin"@.len() != "form.priority.p2.short"@.len() && "modal.locale.builtin"@.len() != "form.priority.p3.short"@.len());
        } else if j == 121 {
            assert("modal.locale.custom"@.len() != "form.priority.p1.short"@.len() && "modal.locale.custom"@.len() != "form.priority.p2.short"@.len() && "modal.locale.custom"@.len() != "form.priority.p3.short"@.len());
        } else if j == 122 {
            assert("modal.locale.controls"@.len() != "form.priority.p1.short"@.len() && "modal.locale.controls"@.len() != "form.priority.p2.short"@.len() && "modal.locale.controls"@.len() != "form.priority.p3.short"@.len());
        } else if j == 123 {
            assert("filter.all"@.len() != "form.priority.p1.short"@.len() && "filter.all"@.len() != "form.priority.p2.short"@.len() && "filter.all"@.len() != "form.priority.p3.short"@.len());
        } else if j == 124 {
            assert("filter.active"@.len() != "form.priority.p1.short"@.len() && "filter.active"@.len() != "form.priority.p2.short"@.len() && "filter.active"@.len() != "form.priority.p3.short"@.len());
        } else if j == 125 {
            assert("filter.done"@.len() != "form.priority.p1.short"@.len() && "filter.done"@.len() != "form.priority.p2.short"@.len() && "filter.done"@.len() != "form.priority.p3.short"@.len());
        } else if j == 126 {
            assert("filter.due_today"@.len() != "form.priority.p1.short"@.len() && "filter.due_today"@.len() != "form.priority.p2.short"@.len() && "filter.due_today"@.len() != "form.priority.p3.short"@.len());
        } else if j == 127 {
            assert("filter.overdue"@.len() != "form.priority.p1.short"@.len() && "filter.overdue"@.len() != "form.priority.p2.short"@.len() && "filter.overdue"@.len() != "form.priority.p3.short"@.len());
        } else if j == 128 {
            assert("status.active"@.len() != "form.priority.p1.short"@.len() && "status.active"@.len() != "form.priority.p2.short"@.len() && "status.active"@.len() != "form.priority.p3.short"@.len());
        } else if j == 129 {
            assert("status.done"@.len() != "form.priority.p1.short"@.len() && "status.done"@.len() != "form.priority.p2.short"@.len() && "status.done"@.len() != "form.priority.p3.short"@.len());
        } else if j == 130 {
            assert("due.overdue"@.len() != "form.priority.p1.short"@.len() && "due.overdue"@.len() != "form.priority.p2.short"@.len() && "due.overdue"@.len() != "form.priority.p3.short"@.len());
        } else if j == 131 {
            assert("due.today"@.len() != "form.priority.p1.short"@.len() && "due.today"@.len() != "form.priority.p2.short"@.len() && "due.today"@.len() != "form.priority.p3.short"@.len());
        } else if j == 132 {
            assert("due.upcoming"@.len() != "form.priority.p1.short"@.len() && "due.upcoming"@.len() != "form.priority.p2.short"@.len() && "due.upcoming"@.len() != "form.priority.p3.short"@.len());
        } else if j == 133 {
            assert("due.none"@.len() != "form.priority.p1.short"@.len() && "due.none"@.len() != "form.priority.p2.short"@.len() && "due.none"@.len() != "form.priority.p3.short"@.len());
        } else if j == 134 {
            assert("list.due.overdue"@.len() != "form.priority.p1.short"@.len() && "list.due.overdue"@.len() != "form.priority.p2.short"@.len() && "list.due.overdue"@.len() != "form.priority.p3.short"@.len());
        } else if j == 135 {
            assert("list.due.today"@.len() != "form.priority.p1.short"@.len() && "list.due.today"@.len() != "form.priority.p2.short"@.len() && "list.due.today"@.len() != "form.priority.p3.short"@.len());
        } else if j == 136 {
            assert("list.due.date"@.len() != "form.priority.p1.short"@.len() && "list.due.date"@.len() != "form.priority.p2.short"@.len() && "list.due.date"@.len() != "form.priority.p3.short"@.len());
        } else if j == 137 {
            assert("list.due.none"@.len() != "form.priority.p1.short"@.len() && "list.due.none"@.len() != "form.priority.p2.short"@.len() && "list.due.none"@.len() != "form.priority.p3.short"@.len());
        } else if j == 138 {
            assert("message.config_reset"@.len() != "form.priority.p1.short"@.len() && "message.config_reset"@.len() != "form.priority.p2.short"@.len() && "message.config_reset"@.len() != "form.priority.p3.short"@.len());
        } else if j == 139 {
            assert("error.prefix"@.len() != "form.priority.p1.short"@.len() && "error.prefix"@.len() != "form.priority.p2.short"@.len() && "error.prefix"@.len() != "form.priority.p3.short"@.len());
        } else if j == 140 {
            assert("error.io"@.len() != "form.priority.p1.short"@.len() && "error.io"@.len() != "form.priority.p2.short"@.len() && "error.io"@.len() != "form.priority.p3.short"@.len());
        } else if j == 141 {
            assert("error.json"@.len() != "form.priority.p1.short"@.len() && "error.json"@.len() != "form.priority.p2.short"@.len() && "error.json"@.len() != "form.priority.p3.short"@.len());
        } else if j == 142 {
            assert("error.missing_home"@.len() != "form.priority.p1.short"@.len() && "error.missing_home"@.len() != "form.priority.p2.short"@.len() && "error.missing_home"@.len() != "form.priority.p3.short"@.len());
        } else if j == 143 {
            assert("error.invalid_due_date"@[0] != "form.priority.p1.short"@[0] && "error.invalid_due_date"@[0] != "form.priority.p2.short"@[0] && "error.invalid_due_date"@[0] != "form.priority.p3.short"@[0]);
        } else if j == 144 {
            assert("error.empty_title"@.len() != "form.priority.p1.short"@.len() && "error.empty_title"@.len() != "form.priority.p2.short"@.len() && "error.empty_title"@.len() != "form.priority.p3.short"@.len());
        } else if j == 145 {
            assert("error.corrupted_data"@.len() != "form.priority.p1.short"@.len() && "error.corrupted_data"@.len() != "form.priority.p2.short"@.len() && "error.corrupted_data"@.len() != "form.priority.p3.short"@.len());
        } else if j == 146 {
            assert("error.invalid_locale_file"@.len() != "form.priority.p1.short"@.len() && "error.invalid_locale_file"@.len() != "form.priority.p2.short"@.len() && "error.invalid_locale_file"@.len() != "form.priority.p3.short"@.len());
        } else if j == 147 {
            assert("error.invalid_config"@.len() != "form.priority.p1.short"@.len() && "error.invalid_config"@.len() != "form.priority.p2.short"@.len() && "error.invalid_config"@.len() != "form.priority.p3.short"@.len());
        }
    }
}

/// Law: in the English catalog each priority's short label key reads as the
/// priority's code: `P1`, `P2`, `P3`.
pub proof fn law_priority_short_labels(p: Priority)
    ensures
        lookup(entries_map(en_us_entries()), p.translation_key_spec()) == p.code_spec(),
{
    let s = en_us_entries();
    lemma_no_later_short_key();
    let i = match p {
        Priority::P1 => 74,
        Priority::P2 => 75,
        Priority::P3 => 76,
    };
    let k = p.translation_key_spec();
    assert(s[i].0 == k && s[i].1 == p.code_spec());
    lemma_entries_map_last(s, k, i + 1);
    assert(s.take(i + 1).drop_last() =~= s.take(i));
}

/// Law: the simplified-Chinese table has the English table's keys, in the
/// same order, so both catalogs know the same keys.
pub proof fn law_tables_share_keys()
    ensures
        ZH_CN_MESSAGES@.len() == EN_US_MESSAGES@.len(),
        forall|i: int|
            0 <= i < EN_US_MESSAGES@.len() ==> (#[trigger] zh_cn_entries()[i]).0
                == en_us_entries()[i].0,
        forall|k: Seq<char>|
            #[trigger] entries_map(zh_cn_entries()).contains_key(k) <==> entries_map(
                en_us_entries(),
            ).contains_key(k),
{
    let key = |p: (&'static str, &'static str)| p.0;
    assert(ZH_CN_MESSAGES@.map_values(key) =~= EN_US_MESSAGES@.map_values(key));
    assert forall|i: int| 0 <= i < EN_US_MESSAGES@.len() implies (#[trigger] zh_cn_entries()[i]).0
        == en_us_entries()[i].0 by {
        assert(ZH_CN_MESSAGES@.map_values(key)[i] == EN_US_MESSAGES@.map_values(key)[i]);
    }
    lemma_same_keys_same_domain(zh_cn_entries(), en_us_entries());
}

/// Two entry lists with the same keys in the same order give catalogs with
/// the same keys.
proof fn lemma_same_keys_same_domain(a: Seq<Entry>, b: Seq<Entry>)
    requires
        a.len() == b.len(),
        forall|i: int| 0 <= i < a.len() ==> (#[trigger] a[i]).0 == b[i].0,
    ensures
        forall|k: Seq<char>|
            #[trigger] entries_map(a).contains_key(k) <==> entries_map(b).contains_key(k),
    decreases a.len(),
{
    if a.len() > 0 {
        assert forall|i: int| 0 <= i < a.drop_last().len() implies (#[trigger] a.drop_last()[i]).0
            == b.drop_last()[i].0 by {
            assert(a[i].0 == b[i].0);
        }
        lemma_same_keys_same_domain(a.drop_last(), b.drop_last());
        assert(a.last().0 == b.last().0);
        assert forall|k: Seq<char>| #[trigger] entries_map(a).contains_key(k)
            <==> entries_map(b).contains_key(k) by {
            assert(entries_map(a) == entries_map(a.drop_last()).insert(a.last().0, a.last().1));
            assert(entries_map(b) == entries_map(b.drop_last()).insert(b.last().0, b.last().1));
            assert(entries_map(a.drop_last()).contains_key(k) <==> entries_map(
                b.drop_last(),
            ).contains_key(k));
        }
    }
}

} // verus!
