//! The Youdao dictionary service: its configuration, the shape of its
//! replies, the signature of a request, and how a reply becomes word
//! entries. Sending the request is left to the caller.

use vstd::prelude::*;
use crate::domain::{clone_opt_string, opt_view};

verus! {

/// What `md5::compute` gives for the UTF-8 bytes of a text: the 16 bytes of
/// its MD5 digest.
pub uninterp spec fn md5_digest(text: Seq<char>) -> Seq<u8>;

/// Calls `md5::compute` on the UTF-8 bytes of `text`.
///
/// The contract names the digest and claims its length, 16 bytes (the
/// crate's `Digest` is a `[u8; 16]`); the digest itself is left to the name.
#[verifier::external_body]
fn md5_of(text: &str) -> (r: Vec<u8>)
    ensures
        r@ == md5_digest(text@),
        r@.len() == 16,
{
    md5::compute(text.as_bytes()).0.to_vec()
}

/// Connection settings for the Youdao service.
#[derive(Debug)]
pub struct YoudaoConfig {
    pub app_key: String,
    pub app_secret: String,
    pub api_url: String,
}

impl Clone for YoudaoConfig {
    fn clone(&self) -> (r: Self)
        ensures
            r == *self,
    {
        YoudaoConfig {
            app_key: self.app_key.clone(),
            app_secret: self.app_secret.clone(),
            api_url: self.api_url.clone(),
        }
    }
}

impl Default for YoudaoConfig {
    /// No key, no secret, and the public Youdao endpoint.
    fn default() -> (r: Self)
        ensures
            r.app_key@.len() == 0,
            r.app_secret@.len() == 0,
            r.api_url@ == "https://openapi.youdao.com/api"@,
    {
        YoudaoConfig {
            app_key: String::new(),
            app_secret: String::new(),
            api_url: "https://openapi.youdao.com/api".to_owned(),
        }
    }
}

/// A reply of the Youdao service to a word query.
#[derive(Debug)]
pub struct YoudaoResponse {
    pub query: String,
    pub error_code: String,
    pub translation: Option<Vec<String>>,
    pub basic: Option<YoudaoBasic>,
    pub web: Option<Vec<YoudaoWebItem>>,
}

/// The dictionary part of a reply.
#[derive(Debug)]
pub struct YoudaoBasic {
    pub phonetic: Option<String>,
    pub us_phonetic: Option<String>,
    pub uk_phonetic: Option<String>,
    pub wfs: Option<Vec<YoudaoWf>>,
    pub exam_type: Option<Vec<String>>,
    pub translations: Option<Vec<YoudaoTrans>>,
}

/// One translation of the dictionary part: a word and its meanings.
#[derive(Debug)]
pub struct YoudaoTrans {
    pub word: Option<String>,
    pub trans: Option<Vec<String>>,
}

/// A word form.
#[derive(Debug)]
pub struct YoudaoWf {
    pub wf: YoudaoWfInfo,
}

/// The name and value of a word form.
#[derive(Debug)]
pub struct YoudaoWfInfo {
    pub name: Option<String>,
    pub value: Option<String>,
}

/// A web translation: a phrase and its meanings.
#[derive(Debug)]
pub struct YoudaoWebItem {
    pub key: String,
    pub value: Vec<String>,
}

/// A word with one definition, as taken from a reply.
#[derive(Debug)]
pub struct WordEntry {
    pub word: String,
    pub phonetic: Option<String>,
    pub definition: String,
    pub part_of_speech: Option<String>,
}

/// The value of a `WordEntry`.
pub ghost struct WordEntryView {
    pub word: Seq<char>,
    pub phonetic: Option<Seq<char>>,
    pub definition: Seq<char>,
    pub part_of_speech: Option<Seq<char>>,
}

impl View for WordEntry {
    type V = WordEntryView;

    open spec fn view(&self) -> WordEntryView {
        WordEntryView {
            word: self.word@,
            phonetic: opt_view(self.phonetic),
            definition: self.definition@,
            part_of_speech: opt_view(self.part_of_speech),
        }
    }
}

/// The characters of each string.
pub open spec fn strings_view(v: Seq<String>) -> Seq<Seq<char>> {
    v.map_values(|s: String| s@)
}

/// The parts joined, with `sep` between each two.
pub open spec fn joined(parts: Seq<Seq<char>>, sep: Seq<char>) -> Seq<char>
    decreases parts.len(),
{
    if parts.len() == 0 {
        Seq::empty()
    } else if parts.len() == 1 {
        parts[0]
    } else {
        joined(parts.drop_last(), sep) + sep + parts.last()
    }
}

/// The separator between the meanings of one translation (a full-width
/// semicolon).
pub open spec fn meaning_separator() -> Seq<char> {
    "；"@
}

/// The phonetic of an entry: the American one if given, else the British
/// one if given, else the plain one.
pub open spec fn chosen_phonetic(b: YoudaoBasic) -> Option<Seq<char>> {
    if b.us_phonetic is Some {
        opt_view(b.us_phonetic)
    } else if b.uk_phonetic is Some {
        opt_view(b.uk_phonetic)
    } else {
        opt_view(b.phonetic)
    }
}

/// The entries of the translations that give both a word and meanings, in
/// order, each with the meanings joined.
pub open spec fn trans_entries(ts: Seq<YoudaoTrans>, phonetic: Option<Seq<char>>) -> Seq<WordEntryView>
    decreases ts.len(),
{
    if ts.len() == 0 {
        Seq::empty()
    } else {
        let rest = trans_entries(ts.drop_last(), phonetic);
        let t = ts.last();
        match (t.word, t.trans) {
            (Some(w), Some(d)) => rest.push(
                WordEntryView {
                    word: w@,
                    phonetic,
                    definition: joined(strings_view(d@), meaning_separator()),
                    part_of_speech: None,
                },
            ),
            _ => rest,
        }
    }
}

/// The entries from the dictionary part of a reply.
pub open spec fn basic_entries(r: YoudaoResponse) -> Seq<WordEntryView> {
    match r.basic {
        Some(b) => match b.translations {
            Some(ts) => trans_entries(ts@, chosen_phonetic(b)),
            None => Seq::empty(),
        },
        None => Seq::empty(),
    }
}

/// One entry for each plain translation, all under the queried word.
pub open spec fn plain_entries(query: Seq<char>, ts: Seq<String>) -> Seq<WordEntryView> {
    Seq::new(
        ts.len(),
        |i: int| WordEntryView { word: query, phonetic: None, definition: ts[i]@, part_of_speech: None },
    )
}

/// The entries of a reply: those of its dictionary part, or, when that
/// gives none, those of its plain translations.
pub open spec fn entries_of(r: YoudaoResponse) -> Seq<WordEntryView> {
    if basic_entries(r).len() > 0 {
        basic_entries(r)
    } else {
        match r.translation {
            Some(ts) => plain_entries(r.query@, ts@),
            None => Seq::empty(),
        }
    }
}

/// The values of a list of entries.
pub open spec fn entries_view(v: Seq<WordEntry>) -> Seq<WordEntryView> {
    v.map_values(|e: WordEntry| e@)
}

/// The parts joined, with `sep` between each two.
pub fn join_strings(parts: &Vec<String>, sep: &str) -> (r: String)
    ensures
        r@ == joined(strings_view(parts@), sep@),
{
    let mut r = String::new();
    let mut i: usize = 0;
    while i < parts.len()
        invariant
            i <= parts@.len(),
            r@ == joined(strings_view(parts@).take(i as int), sep@),
        decreases parts@.len() - i,
    {
        let ghost prefix = strings_view(parts@).take(i + 1);
        assert(prefix.drop_last() =~= strings_view(parts@).take(i as int));
        assert(prefix.last() == parts@[i as int]@);
        if i > 0 {
            r.append(sep);
        }
        r.append(parts[i].as_str());
        i = i + 1;
    }
    assert(strings_view(parts@).take(parts@.len() as int) =~= strings_view(parts@));
    r
}

/// The American phonetic if given, else the British one if given, else
/// the plain one.
fn choose_phonetic(b: &YoudaoBasic) -> (r: Option<String>)
    ensures
        opt_view(r) == chosen_phonetic(*b),
{
    if b.us_phonetic.is_some() {
        clone_opt_string(&b.us_phonetic)
    } else if b.uk_phonetic.is_some() {
        clone_opt_string(&b.uk_phonetic)
    } else {
        clone_opt_string(&b.phonetic)
    }
}

impl WordEntry {
    /// The word entries that a reply gives: one for each translation of its
    /// dictionary part that has both a word and meanings (the meanings
    /// joined by a full-width semicolon, the phonetic chosen American,
    /// British, plain); when there are none, one for each plain translation
    /// under the queried word.
    pub fn from_youdao(response: &YoudaoResponse) -> (r: Vec<WordEntry>)
        ensures
            entries_view(r@) == entries_of(*response),
    {
        let mut entries: Vec<WordEntry> = Vec::new();
        assert(entries_view(entries@) =~= Seq::<WordEntryView>::empty());
        match &response.basic {
            Some(basic) => {
                let phonetic = choose_phonetic(basic);
                match &basic.translations {
                    Some(ts) => {
                        let mut i: usize = 0;
                        while i < ts.len()
                            invariant
                                i <= ts@.len(),
                                opt_view(phonetic) == chosen_phonetic(*basic),
                                entries_view(entries@) == trans_entries(ts@.take(i as int), opt_view(phonetic)),
                            decreases ts@.len() - i,
                        {
                            assert(ts@.take(i + 1).drop_last() =~= ts@.take(i as int));
                            assert(ts@.take(i + 1).last() == ts@[i as int]);
                            let t = &ts[i];
                            match (&t.word, &t.trans) {
                                (Some(w), Some(d)) => {
                                    let e = WordEntry {
                                        word: w.clone(),
                                        phonetic: clone_opt_string(&phonetic),
                                        definition: join_strings(d, "；"),
                                        part_of_speech: None,
                                    };
                                    entries.push(e);
                                    assert(entries_view(entries@) =~= trans_entries(ts@.take(i + 1), opt_view(phonetic)));
                                },
                                _ => {},
                            }
                            i = i + 1;
                        }
                        assert(ts@.take(ts@.len() as int) =~= ts@);
                    },
                    None => {},
                }
            },
            None => {},
        }
        assert(entries_view(entries@) == basic_entries(*response));
        if entries.len() == 0 {
            match &response.translation {
                Some(ts) => {
                    let mut i: usize = 0;
                    while i < ts.len()
                        invariant
                            i <= ts@.len(),
                            entries_view(entries@) == plain_entries(response.query@, ts@.take(i as int)),
                        decreases ts@.len() - i,
                    {
                        let e = WordEntry {
                            word: response.query.clone(),
                            phonetic: None,
                            definition: ts[i].clone(),
                            part_of_speech: None,
                        };
                        let ghost before = entries@;
                        assert(entries_view(before).len() == before.len());
                        assert(plain_entries(response.query@, ts@.take(i as int)).len() == i);
                        entries.push(e);
                        assert forall|j: int| 0 <= j < i + 1 implies #[trigger] entries_view(entries@)[j]
                            == plain_entries(response.query@, ts@.take(i + 1))[j] by {
                            if j < i {
                                assert(entries@[j] == before[j]);
                                assert(entries_view(before)[j] == plain_entries(response.query@, ts@.take(i as int))[j]);
                            }
                        }
                        assert(entries_view(entries@) =~= plain_entries(response.query@, ts@.take(i + 1)));
                        i = i + 1;
                    }
                    assert(ts@.take(ts@.len() as int) =~= ts@);
                },
                None => {
                    assert(entries_view(entries@) =~= Seq::<WordEntryView>::empty());
                },
            }
        }
        entries
    }
}

/// The lower-case hexadecimal digit of a value below 16.
pub open spec fn hex_digit(n: u8) -> char {
    if n < 10 {
        (48 + n) as char
    } else {
        (87 + n) as char
    }
}

/// The bytes in lower-case hexadecimal, two digits per byte.
pub open spec fn hex_lower(bytes: Seq<u8>) -> Seq<char>
    decreases bytes.len(),
{
    if bytes.len() == 0 {
        Seq::empty()
    } else {
        hex_lower(bytes.drop_last()) + seq![hex_digit(bytes.last() / 16), hex_digit(bytes.last() % 16)]
    }
}

/// The lower-case hexadecimal digit of a value below 16.
fn hex_digit_of(n: u8) -> (c: char)
    requires
        n < 16,
    ensures
        c == hex_digit(n),
{
    if n < 10 {
        (48 + n) as char
    } else {
        (87 + n) as char
    }
}

/// The bytes in lower-case hexadecimal, two digits per byte.
pub fn to_hex_lower(bytes: &Vec<u8>) -> (r: Vec<char>)
    ensures
        r@ == hex_lower(bytes@),
{
    let mut r: Vec<char> = Vec::new();
    let mut i: usize = 0;
    while i < bytes.len()
        invariant
            i <= bytes@.len(),
            r@ == hex_lower(bytes@.take(i as int)),
        decreases bytes@.len() - i,
    {
        assert(bytes@.take(i + 1).drop_last() =~= bytes@.take(i as int));
        assert(bytes@.take(i + 1).last() == bytes@[i as int]);
        let b = bytes[i];
        r.push(hex_digit_of(b / 16));
        r.push(hex_digit_of(b % 16));
        i = i + 1;
        assert(r@ =~= hex_lower(bytes@.take(i as int)));
    }
    assert(bytes@.take(bytes@.len() as int) =~= bytes@);
    r
}

/// The text that a request signs: key, query, salt, time and secret, one
/// after the other.
pub open spec fn sign_input(app_key: Seq<char>, q: Seq<char>, salt: Seq<char>, curtime: Seq<char>, app_secret: Seq<char>) -> Seq<char> {
    app_key + q + salt + curtime + app_secret
}

/// The signature of a request: the MD5 digest of the signed text in
/// lower-case hexadecimal.
pub open spec fn signature(app_key: Seq<char>, q: Seq<char>, salt: Seq<char>, curtime: Seq<char>, app_secret: Seq<char>) -> Seq<char> {
    hex_lower(md5_digest(sign_input(app_key, q, salt, curtime, app_secret)))
}

/// The signature of a request: the MD5 digest of key, query, salt, time
/// and secret, one after the other, in lower-case hexadecimal (32 digits).
pub fn generate_sign(app_key: &str, q: &str, salt: &str, curtime: &str, app_secret: &str) -> (r: String)
    ensures
        r@ == signature(app_key@, q@, salt@, curtime@, app_secret@),
        r@ == hex_lower(md5_digest(app_key@ + q@ + salt@ + curtime@ + app_secret@)),
        r@.len() == 32,
{
    let mut text = app_key.to_owned();
    text.append(q);
    text.append(salt);
    text.append(curtime);
    text.append(app_secret);
    let digest = md5_of(text.as_str());
    let hex = to_hex_lower(&digest);
    proof {
        lemma_hex_lower_len(digest@);
    }
    crate::text::string_from_chars(&hex)
}

/// Two hexadecimal digits per byte.
proof fn lemma_hex_lower_len(bytes: Seq<u8>)
    ensures
        hex_lower(bytes).len() == 2 * bytes.len(),
    decreases bytes.len(),
{
    if bytes.len() > 0 {
        lemma_hex_lower_len(bytes.drop_last());
    }
}

/// The signature is the digest, in lower-case hexadecimal, of one text made
/// of the key, the query, the salt, the time and the secret in that order:
/// each part stands at its own place in the signed text.
pub proof fn lemma_signed_text(k: Seq<char>, q: Seq<char>, salt: Seq<char>, curtime: Seq<char>, secret: Seq<char>)
    ensures
        signature(k, q, salt, curtime, secret) == hex_lower(md5_digest(k + q + salt + curtime + secret)),
        ({
            let t = sign_input(k, q, salt, curtime, secret);
            let a = k.len() as int;
            let b = a + q.len();
            let c = b + salt.len();
            let d = c + curtime.len();
            &&& t.len() == d + secret.len()
            &&& t.subrange(0, a) == k
            &&& t.subrange(a, b) == q
            &&& t.subrange(b, c) == salt
            &&& t.subrange(c, d) == curtime
            &&& t.subrange(d, t.len() as int) == secret
        }),
{
    let t = sign_input(k, q, salt, curtime, secret);
    let a = k.len() as int;
    let b = a + q.len();
    let c = b + salt.len();
    let d = c + curtime.len();
    assert(t.subrange(0, a) =~= k);
    assert(t.subrange(a, b) =~= q);
    assert(t.subrange(b, c) =~= salt);
    assert(t.subrange(c, d) =~= curtime);
    assert(t.subrange(d, t.len() as int) =~= secret);
}

/// Lower-case hexadecimal: two digits per byte, the high half first, with
/// `0`..`9` for the values 0 to 9 and `a`..`f` for 10 to 15.
pub proof fn lemma_hex_lower_digits(bytes: Seq<u8>)
    ensures
        hex_lower(bytes).len() == 2 * bytes.len(),
        forall|i: int| 0 <= i < bytes.len() ==> #[trigger] hex_lower(bytes)[2 * i] == hex_digit(bytes[i] / 16)
            && hex_lower(bytes)[2 * i + 1] == hex_digit(bytes[i] % 16),
        forall|n: u8| n < 10 ==> (#[trigger] hex_digit(n)) as u32 == '0' as u32 + n,
        forall|n: u8| 10 <= n < 16 ==> (#[trigger] hex_digit(n)) as u32 == 'a' as u32 + (n - 10),
    decreases bytes.len(),
{
    lemma_hex_lower_len(bytes);
    if bytes.len() > 0 {
        let p = bytes.drop_last();
        lemma_hex_lower_digits(p);
        assert forall|i: int| 0 <= i < bytes.len() implies #[trigger] hex_lower(bytes)[2 * i] == hex_digit(bytes[i] / 16)
            && hex_lower(bytes)[2 * i + 1] == hex_digit(bytes[i] % 16) by {
            if i < p.len() {
                assert(hex_lower(bytes)[2 * i] == hex_lower(p)[2 * i]);
                assert(hex_lower(bytes)[2 * i + 1] == hex_lower(p)[2 * i + 1]);
                assert(bytes[i] == p[i]);
            }
        }
    }
}

/// The message for a configuration without key or secret.
pub open spec fn missing_config_message() -> Seq<char> {
    "API配置未设置，请先在设置中配置有道API"@
}

/// The message for a reply that reports an error.
pub open spec fn api_error_message(code: Seq<char>) -> Seq<char> {
    "API错误: "@ + code
}

/// Refuses a configuration that lacks the key or the secret.
pub fn check_config(config: &YoudaoConfig) -> (r: Result<(), String>)
    ensures
        r is Ok <==> config.app_key@.len() > 0 && config.app_secret@.len() > 0,
        r matches Err(e) ==> e@ == missing_config_message(),
{
    if config.app_key.as_str().is_empty() || config.app_secret.as_str().is_empty() {
        Err("API配置未设置，请先在设置中配置有道API".to_owned())
    } else {
        Ok(())
    }
}

/// Accepts a reply whose error code is "0" and refuses any other, naming
/// its code.
pub fn check_response(response: YoudaoResponse) -> (r: Result<YoudaoResponse, String>)
    ensures
        r is Ok <==> response.error_code@ == "0"@,
        r matches Ok(x) ==> x == response,
        r matches Err(e) ==> e@ == api_error_message(response.error_code@),
{
    if crate::text::str_eq(response.error_code.as_str(), "0") {
        Ok(response)
    } else {
        let mut e = "API错误: ".to_owned();
        e.append(response.error_code.as_str());
        Err(e)
    }
}

/// The form fields of a query for `word`, signed with the key and secret of
/// the configuration.
pub open spec fn request_fields(
    config: YoudaoConfig,
    word: Seq<char>,
    salt: Seq<char>,
    curtime: Seq<char>,
) -> Seq<(Seq<char>, Seq<char>)> {
    seq![
        ("q"@, word),
        ("from"@, "en"@),
        ("to"@, "zh"@),
        ("appKey"@, config.app_key@),
        ("salt"@, salt),
        ("sign"@, signature(config.app_key@, word, salt, curtime, config.app_secret@)),
        ("curtime"@, curtime),
        ("signType"@, "v3"@),
        ("dict"@, "true"@),
    ]
}

/// The characters of each field name and value.
pub open spec fn fields_view(v: Seq<(String, String)>) -> Seq<(Seq<char>, Seq<char>)> {
    v.map_values(|p: (String, String)| (p.0@, p.1@))
}

/// The form fields of a query for `word` at time `curtime` (seconds, as
/// text) with the given salt, signed with the key and secret.
pub fn request_params(config: &YoudaoConfig, word: &str, salt: &str, curtime: &str) -> (r: Vec<(String, String)>)
    ensures
        fields_view(r@) == request_fields(*config, word@, salt@, curtime@),
{
    let sign = generate_sign(config.app_key.as_str(), word, salt, curtime, config.app_secret.as_str());
    let mut r: Vec<(String, String)> = Vec::new();
    r.push(("q".to_owned(), word.to_owned()));
    r.push(("from".to_owned(), "en".to_owned()));
    r.push(("to".to_owned(), "zh".to_owned()));
    r.push(("appKey".to_owned(), config.app_key.clone()));
    r.push(("salt".to_owned(), salt.to_owned()));
    r.push(("sign".to_owned(), sign));
    r.push(("curtime".to_owned(), curtime.to_owned()));
    r.push(("signType".to_owned(), "v3".to_owned()));
    r.push(("dict".to_owned(), "true".to_owned()));
    assert(fields_view(r@) =~= request_fields(*config, word@, salt@, curtime@));
    r
}


/// The form of a query names the word, the languages (English to Chinese),
/// the key, the salt, the signature, the time, the signature scheme and the
/// request for dictionary data; the signature is that of the key, the word,
/// the salt, the time and the secret, in that order.
pub proof fn lemma_request_fields(config: YoudaoConfig, word: Seq<char>, salt: Seq<char>, curtime: Seq<char>)
    ensures
        ({
            let f = request_fields(config, word, salt, curtime);
            &&& f.len() == 9
            &&& f[0] == ("q"@, word)
            &&& f[1] == ("from"@, "en"@)
            &&& f[2] == ("to"@, "zh"@)
            &&& f[3] == ("appKey"@, config.app_key@)
            &&& f[4] == ("salt"@, salt)
            &&& f[5] == ("sign"@, hex_lower(md5_digest(config.app_key@ + word + salt + curtime + config.app_secret@)))
            &&& f[6] == ("curtime"@, curtime)
            &&& f[7] == ("signType"@, "v3"@)
            &&& f[8] == ("dict"@, "true"@)
        }),
{
}

/// The phonetic of an entry prefers the American one, then the British
/// one, then the plain one.
pub proof fn lemma_phonetic_preference(b: YoudaoBasic)
    ensures
        b.us_phonetic is Some ==> chosen_phonetic(b) == Some(b.us_phonetic->0@),
        b.us_phonetic is None && b.uk_phonetic is Some ==> chosen_phonetic(b) == Some(b.uk_phonetic->0@),
        b.us_phonetic is None && b.uk_phonetic is None ==> chosen_phonetic(b) == opt_view(b.phonetic),
{
}

/// Meanings are joined with the separator between each two and nowhere
/// else: nothing gives nothing, one meaning gives itself, and one more
/// meaning adds the separator and that meaning at the end.
pub proof fn lemma_joined_parts(parts: Seq<Seq<char>>, x: Seq<char>, sep: Seq<char>)
    ensures
        joined(Seq::empty(), sep) == Seq::<char>::empty(),
        joined(seq![x], sep) == x,
        parts.len() > 0 ==> joined(parts.push(x), sep) == joined(parts, sep) + sep + x,
{
    assert(parts.push(x).drop_last() =~= parts);
}

/// Translations that each give a word and meanings yield one entry each, in
/// order: the translation's word, the chosen phonetic, and the meanings
/// joined by the full-width semicolon.
pub proof fn lemma_complete_translations(ts: Seq<YoudaoTrans>, phonetic: Option<Seq<char>>)
    requires
        forall|i: int| 0 <= i < ts.len() ==> (#[trigger] ts[i]).word is Some && ts[i].trans is Some,
    ensures
        trans_entries(ts, phonetic).len() == ts.len(),
        forall|i: int| 0 <= i < ts.len() ==> {
            &&& (#[trigger] trans_entries(ts, phonetic)[i]).word == ts[i].word->0@
            &&& trans_entries(ts, phonetic)[i].phonetic == phonetic
            &&& trans_entries(ts, phonetic)[i].definition == joined(strings_view(ts[i].trans->0@), "；"@)
            &&& trans_entries(ts, phonetic)[i].part_of_speech is None
        },
    decreases ts.len(),
{
    if ts.len() > 0 {
        let p = ts.drop_last();
        assert forall|i: int| 0 <= i < p.len() implies (#[trigger] p[i]).word is Some && p[i].trans is Some by {
            assert(p[i] == ts[i]);
        }
        lemma_complete_translations(p, phonetic);
        assert forall|i: int| 0 <= i < ts.len() implies {
            &&& (#[trigger] trans_entries(ts, phonetic)[i]).word == ts[i].word->0@
            &&& trans_entries(ts, phonetic)[i].phonetic == phonetic
            &&& trans_entries(ts, phonetic)[i].definition == joined(strings_view(ts[i].trans->0@), "；"@)
            &&& trans_entries(ts, phonetic)[i].part_of_speech is None
        } by {
            assert(ts[ts.len() - 1].word is Some && ts[ts.len() - 1].trans is Some);
            if i < p.len() {
                assert(p[i] == ts[i]);
            }
        }
    }
}

/// When the dictionary part of a reply gives no entry, each plain
/// translation gives one, in order, under the queried word and without
/// phonetic.
pub proof fn lemma_plain_translation_entries(r: YoudaoResponse)
    requires
        basic_entries(r).len() == 0,
        r.translation is Some,
    ensures
        entries_of(r).len() == r.translation->0@.len(),
        forall|i: int| 0 <= i < entries_of(r).len() ==> (#[trigger] entries_of(r)[i]).word == r.query@
            && entries_of(r)[i].definition == r.translation->0@[i]@
            && entries_of(r)[i].phonetic is None,
{
}

/// A reply always yields entries when it has plain translations: those of
/// the dictionary part, or else one per plain translation.
pub proof fn lemma_translations_give_entries(r: YoudaoResponse)
    requires
        r.translation matches Some(ts) && ts@.len() > 0,
    ensures
        entries_of(r).len() > 0,
{
}

} // verus!
