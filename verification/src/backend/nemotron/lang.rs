//! Language prompts of Nemotron: the encoder takes the number of a locale, one
//! of 128 slots, of which one has it detect the language itself.

use vstd::prelude::*;

use crate::text::chars::{ascii_lower, ascii_lowercase, ascii_uppercase};
use crate::text::strings::{
    eq_ignoring_ascii_case, law_trimming_keeps_case, law_trimming_settles, lemma_case_changed, owned,
    same_ignoring_ascii_case, str_views, trim, trimmed, views,
};

verus! {

/// The slots of the locales, in the order in which they are looked up.
pub open spec fn lang_table() -> Seq<(Seq<char>, i64)> {
    seq![
        ("en-US"@, 0),
        ("en"@, 0),
        ("en-GB"@, 1),
        ("es-ES"@, 2),
        ("es-US"@, 3),
        ("es"@, 3),
        ("zh-CN"@, 4),
        ("zh"@, 4),
        ("zh-TW"@, 5),
        ("hi-IN"@, 6),
        ("hi"@, 6),
        ("ar-AR"@, 7),
        ("ar"@, 7),
        ("fr-FR"@, 8),
        ("fr"@, 8),
        ("de-DE"@, 9),
        ("de"@, 9),
        ("ja-JP"@, 10),
        ("ja"@, 10),
        ("ru-RU"@, 11),
        ("ru"@, 11),
        ("pt-BR"@, 12),
        ("pt-PT"@, 13),
        ("pt"@, 13),
        ("ko-KR"@, 14),
        ("ko"@, 14),
        ("it-IT"@, 15),
        ("it"@, 15),
        ("nl-NL"@, 16),
        ("nl"@, 16),
        ("pl-PL"@, 17),
        ("pl"@, 17),
        ("tr-TR"@, 18),
        ("tr"@, 18),
        ("uk-UA"@, 19),
        ("uk"@, 19),
        ("ro-RO"@, 20),
        ("ro"@, 20),
        ("el-GR"@, 21),
        ("el"@, 21),
        ("cs-CZ"@, 22),
        ("cs"@, 22),
        ("hu-HU"@, 23),
        ("hu"@, 23),
        ("sv-SE"@, 24),
        ("sv"@, 24),
        ("da-DK"@, 25),
        ("da"@, 25),
        ("fi-FI"@, 26),
        ("fi"@, 26),
        ("no-NO"@, 27),
        ("no"@, 27),
        ("sk-SK"@, 28),
        ("sk"@, 28),
        ("hr-HR"@, 29),
        ("hr"@, 29),
        ("bg-BG"@, 30),
        ("bg"@, 30),
        ("lt-LT"@, 31),
        ("lt"@, 31),
        ("th-TH"@, 32),
        ("vi-VN"@, 33),
        ("et-EE"@, 60),
        ("et"@, 60),
        ("lv-LV"@, 61),
        ("lv"@, 61),
        ("sl-SI"@, 62),
        ("sl"@, 62),
        ("he-IL"@, 64),
        ("he"@, 64),
        ("fr-CA"@, 100),
        ("auto"@, 101),
        ("mt-MT"@, 102),
        ("nb-NO"@, 103),
        ("nb"@, 103),
        ("nn-NO"@, 104),
        ("nn"@, 104),
    ]
}

/// The slot of the first entry, from `from` on, whose name is `key` up to
/// case.
pub open spec fn slot_of(table: Seq<(Seq<char>, i64)>, key: Seq<char>, from: int) -> Option<i64>
    decreases table.len() - from,
{
    if from >= table.len() {
        None
    } else if same_ignoring_ascii_case(table[from].0, key) {
        Some(table[from].1)
    } else {
        slot_of(table, key, from + 1)
    }
}

/// The slot of a locale: that of American English where it is not known.
pub open spec fn locale_slot(locale: Seq<char>) -> i64 {
    match slot_of(lang_table(), trim(locale), 0) {
        Some(id) => id,
        None => 0,
    }
}

/// Locales offered for choice, in display order.
pub open spec fn offered_locales() -> Seq<Seq<char>> {
    seq![
        "auto"@, "en-US"@, "en-GB"@, "es-ES"@, "es-US"@, "fr-FR"@, "fr-CA"@, "de-DE"@,
        "it-IT"@, "pt-BR"@, "pt-PT"@, "nl-NL"@, "ru-RU"@, "uk-UA"@, "pl-PL"@, "cs-CZ"@,
        "sk-SK"@, "hr-HR"@, "bg-BG"@, "sl-SI"@, "ro-RO"@, "el-GR"@, "hu-HU"@, "sv-SE"@,
        "da-DK"@, "fi-FI"@, "nb-NO"@, "nn-NO"@, "lt-LT"@, "lv-LV"@, "et-EE"@, "tr-TR"@,
        "ar-AR"@, "he-IL"@, "hi-IN"@, "ja-JP"@, "ko-KR"@, "zh-CN"@, "th-TH"@, "vi-VN"@,
        "mt-MT"@,
    ]
}

fn table_entry(i: usize) -> (r: (&'static str, i64))
    requires
        i < 77,
    ensures
        (r.0@, r.1) == lang_table()[i as int],
{
    let table: [(&'static str, i64); 77] = [
        ("en-US", 0),
        ("en", 0),
        ("en-GB", 1),
        ("es-ES", 2),
        ("es-US", 3),
        ("es", 3),
        ("zh-CN", 4),
        ("zh", 4),
        ("zh-TW", 5),
        ("hi-IN", 6),
        ("hi", 6),
        ("ar-AR", 7),
        ("ar", 7),
        ("fr-FR", 8),
        ("fr", 8),
        ("de-DE", 9),
        ("de", 9),
        ("ja-JP", 10),
        ("ja", 10),
        ("ru-RU", 11),
        ("ru", 11),
        ("pt-BR", 12),
        ("pt-PT", 13),
        ("pt", 13),
        ("ko-KR", 14),
        ("ko", 14),
        ("it-IT", 15),
        ("it", 15),
        ("nl-NL", 16),
        ("nl", 16),
        ("pl-PL", 17),
        ("pl", 17),
        ("tr-TR", 18),
        ("tr", 18),
        ("uk-UA", 19),
        ("uk", 19),
        ("ro-RO", 20),
        ("ro", 20),
        ("el-GR", 21),
        ("el", 21),
        ("cs-CZ", 22),
        ("cs", 22),
        ("hu-HU", 23),
        ("hu", 23),
        ("sv-SE", 24),
        ("sv", 24),
        ("da-DK", 25),
        ("da", 25),
        ("fi-FI", 26),
        ("fi", 26),
        ("no-NO", 27),
        ("no", 27),
        ("sk-SK", 28),
        ("sk", 28),
        ("hr-HR", 29),
        ("hr", 29),
        ("bg-BG", 30),
        ("bg", 30),
        ("lt-LT", 31),
        ("lt", 31),
        ("th-TH", 32),
        ("vi-VN", 33),
        ("et-EE", 60),
        ("et", 60),
        ("lv-LV", 61),
        ("lv", 61),
        ("sl-SI", 62),
        ("sl", 62),
        ("he-IL", 64),
        ("he", 64),
        ("fr-CA", 100),
        ("auto", 101),
        ("mt-MT", 102),
        ("nb-NO", 103),
        ("nb", 103),
        ("nn-NO", 104),
        ("nn", 104),
    ];
    table[i]
}

/// Resolves a locale, such as "en-US", "de" or "auto", to its slot.
pub fn lang_id(locale: &str) -> (r: i64)
    ensures
        r == locale_slot(locale@),
{
    let key = trimmed(locale);
    let mut i: usize = 0;
    while i < 77
        invariant
            i <= 77,
            key@ == trim(locale@),
            lang_table().len() == 77,
            slot_of(lang_table(), key@, 0) == slot_of(lang_table(), key@, i as int),
        decreases 77 - i,
    {
        let (name, id) = table_entry(i);
        if eq_ignoring_ascii_case(name, key.as_str()) {
            return id;
        }
        i += 1;
    }
    0
}

/// Locales offered for choice.
pub fn supported_locales() -> (r: Vec<String>)
    ensures
        views(r@) == offered_locales(),
{
    let names: [&'static str; 41] = [
        "auto", "en-US", "en-GB", "es-ES", "es-US", "fr-FR", "fr-CA", "de-DE", "it-IT",
        "pt-BR", "pt-PT", "nl-NL", "ru-RU", "uk-UA", "pl-PL", "cs-CZ", "sk-SK", "hr-HR",
        "bg-BG", "sl-SI", "ro-RO", "el-GR", "hu-HU", "sv-SE", "da-DK", "fi-FI", "nb-NO",
        "nn-NO", "lt-LT", "lv-LV", "et-EE", "tr-TR", "ar-AR", "he-IL", "hi-IN", "ja-JP",
        "ko-KR", "zh-CN", "th-TH", "vi-VN", "mt-MT",
    ];
    assert(str_views(names@) =~= offered_locales());
    owned(names)
}

proof fn lemma_entry_has_slot(table: Seq<(Seq<char>, i64)>, k: int, from: int)
    requires
        0 <= from <= k < table.len(),
    ensures
        slot_of(table, table[k].0, from) is Some,
    decreases k - from,
{
    if from < k {
        lemma_entry_has_slot(table, k, from + 1);
    }
}

/// Every locale that is offered has a slot of its own name.
pub proof fn law_offered_locales_have_slots(j: int)
    requires
        0 <= j < offered_locales().len(),
    ensures
        slot_of(lang_table(), offered_locales()[j], 0) is Some,
{
    assert(exists|k: int|
        0 <= k < lang_table().len() && (#[trigger] lang_table()[k]).0 == offered_locales()[j]) by {
        lemma_offered_in_table();
    }
    let k = choose|k: int|
        0 <= k < lang_table().len() && (#[trigger] lang_table()[k]).0 == offered_locales()[j];
    lemma_entry_has_slot(lang_table(), k, 0);
}

proof fn lemma_offered_in_table()
    ensures
        forall|j: int|
            0 <= j < offered_locales().len() ==> exists|k: int|
                0 <= k < lang_table().len() && (#[trigger] lang_table()[k]).0
                    == #[trigger] offered_locales()[j],
{
    assert(lang_table()[71].0 == offered_locales()[0]);
    assert(lang_table()[0].0 == offered_locales()[1]);
    assert(lang_table()[2].0 == offered_locales()[2]);
    assert(lang_table()[3].0 == offered_locales()[3]);
    assert(lang_table()[4].0 == offered_locales()[4]);
    assert(lang_table()[13].0 == offered_locales()[5]);
    assert(lang_table()[70].0 == offered_locales()[6]);
    assert(lang_table()[15].0 == offered_locales()[7]);
    assert(lang_table()[26].0 == offered_locales()[8]);
    assert(lang_table()[21].0 == offered_locales()[9]);
    assert(lang_table()[22].0 == offered_locales()[10]);
    assert(lang_table()[28].0 == offered_locales()[11]);
    assert(lang_table()[19].0 == offered_locales()[12]);
    assert(lang_table()[34].0 == offered_locales()[13]);
    assert(lang_table()[30].0 == offered_locales()[14]);
    assert(lang_table()[40].0 == offered_locales()[15]);
    assert(lang_table()[52].0 == offered_locales()[16]);
    assert(lang_table()[54].0 == offered_locales()[17]);
    assert(lang_table()[56].0 == offered_locales()[18]);
    assert(lang_table()[66].0 == offered_locales()[19]);
    assert(lang_table()[36].0 == offered_locales()[20]);
    assert(lang_table()[38].0 == offered_locales()[21]);
    assert(lang_table()[42].0 == offered_locales()[22]);
    assert(lang_table()[44].0 == offered_locales()[23]);
    assert(lang_table()[46].0 == offered_locales()[24]);
    assert(lang_table()[48].0 == offered_locales()[25]);
    assert(lang_table()[73].0 == offered_locales()[26]);
    assert(lang_table()[75].0 == offered_locales()[27]);
    assert(lang_table()[58].0 == offered_locales()[28]);
    assert(lang_table()[64].0 == offered_locales()[29]);
    assert(lang_table()[62].0 == offered_locales()[30]);
    assert(lang_table()[32].0 == offered_locales()[31]);
    assert(lang_table()[11].0 == offered_locales()[32]);
    assert(lang_table()[68].0 == offered_locales()[33]);
    assert(lang_table()[9].0 == offered_locales()[34]);
    assert(lang_table()[17].0 == offered_locales()[35]);
    assert(lang_table()[24].0 == offered_locales()[36]);
    assert(lang_table()[6].0 == offered_locales()[37]);
    assert(lang_table()[60].0 == offered_locales()[38]);
    assert(lang_table()[61].0 == offered_locales()[39]);
    assert(lang_table()[72].0 == offered_locales()[40]);
}

proof fn lemma_found_entry(table: Seq<(Seq<char>, i64)>, key: Seq<char>, from: int) -> (k: int)
    requires
        0 <= from,
        slot_of(table, key, from) is Some,
    ensures
        from <= k < table.len(),
        same_ignoring_ascii_case(table[k].0, key),
        slot_of(table, key, from) == Some(table[k].1),
    decreases table.len() - from,
{
    if same_ignoring_ascii_case(table[from].0, key) {
        from
    } else {
        lemma_found_entry(table, key, from + 1)
    }
}

proof fn lemma_slots_by_case(table: Seq<(Seq<char>, i64)>, a: Seq<char>, b: Seq<char>, from: int)
    requires
        same_ignoring_ascii_case(a, b),
    ensures
        slot_of(table, a, from) == slot_of(table, b, from),
    decreases table.len() - from,
{
    if from < table.len() {
        lemma_slots_by_case(table, a, b, from + 1);
    }
}

/// Locales that differ in case alone, once trimmed, have one slot: so the slot
/// of a locale is that of the locale trimmed, in small letters or in capitals.
pub proof fn law_slots_ignore_case_and_space(a: Seq<char>, b: Seq<char>)
    ensures
        same_ignoring_ascii_case(trim(a), trim(b)) ==> locale_slot(a) == locale_slot(b),
        locale_slot(trim(a)) == locale_slot(a),
        locale_slot(ascii_lowercase(a)) == locale_slot(a),
        locale_slot(ascii_uppercase(a)) == locale_slot(a),
{
    if same_ignoring_ascii_case(trim(a), trim(b)) {
        lemma_slots_by_case(lang_table(), trim(a), trim(b), 0);
    }
    law_trimming_settles(a);
    law_trimming_keeps_case(a);
    lemma_case_changed(trim(a));
    lemma_slots_by_case(lang_table(), ascii_lowercase(trim(a)), trim(a), 0);
    lemma_slots_by_case(lang_table(), ascii_uppercase(trim(a)), trim(a), 0);
}

proof fn lemma_table_in_range(k: int)
    requires
        0 <= k < lang_table().len(),
    ensures
        0 <= lang_table()[k].1 < 128,
{
}

/// Every locale, known or not, has one of the encoder's 128 slots.
pub proof fn law_slots_are_in_range(locale: Seq<char>)
    ensures
        0 <= locale_slot(locale) < 128,
{
    if slot_of(lang_table(), trim(locale), 0) is Some {
        let k = lemma_found_entry(lang_table(), trim(locale), 0);
        lemma_table_in_range(k);
    }
}

/// Slots never fall along the table, and rise at each name that is more than
/// a language.
proof fn lemma_table_rises(k: int)
    requires
        0 <= k < lang_table().len() - 1,
    ensures
        lang_table()[k].1 <= lang_table()[k + 1].1,
        lang_table()[k + 1].0.len() >= 4 ==> lang_table()[k].1 < lang_table()[k + 1].1,
{
    reveal_strlit("en-US");
    reveal_strlit("en");
    reveal_strlit("en-GB");
    reveal_strlit("es-ES");
    reveal_strlit("es-US");
    reveal_strlit("es");
    reveal_strlit("zh-CN");
    reveal_strlit("zh");
    reveal_strlit("zh-TW");
    reveal_strlit("hi-IN");
    reveal_strlit("hi");
    reveal_strlit("ar-AR");
    reveal_strlit("ar");
    reveal_strlit("fr-FR");
    reveal_strlit("fr");
    reveal_strlit("de-DE");
    reveal_strlit("de");
    reveal_strlit("ja-JP");
    reveal_strlit("ja");
    reveal_strlit("ru-RU");
    reveal_strlit("ru");
    reveal_strlit("pt-BR");
    reveal_strlit("pt-PT");
    reveal_strlit("pt");
    reveal_strlit("ko-KR");
    reveal_strlit("ko");
    reveal_strlit("it-IT");
    reveal_strlit("it");
    reveal_strlit("nl-NL");
    reveal_strlit("nl");
    reveal_strlit("pl-PL");
    reveal_strlit("pl");
    reveal_strlit("tr-TR");
    reveal_strlit("tr");
    reveal_strlit("uk-UA");
    reveal_strlit("uk");
    reveal_strlit("ro-RO");
    reveal_strlit("ro");
    reveal_strlit("el-GR");
    reveal_strlit("el");
    reveal_strlit("cs-CZ");
    reveal_strlit("cs");
    reveal_strlit("hu-HU");
    reveal_strlit("hu");
    reveal_strlit("sv-SE");
    reveal_strlit("sv");
    reveal_strlit("da-DK");
    reveal_strlit("da");
    reveal_strlit("fi-FI");
    reveal_strlit("fi");
    reveal_strlit("no-NO");
    reveal_strlit("no");
    reveal_strlit("sk-SK");
    reveal_strlit("sk");
    reveal_strlit("hr-HR");
    reveal_strlit("hr");
    reveal_strlit("bg-BG");
    reveal_strlit("bg");
    reveal_strlit("lt-LT");
    reveal_strlit("lt");
    reveal_strlit("th-TH");
    reveal_strlit("vi-VN");
    reveal_strlit("et-EE");
    reveal_strlit("et");
    reveal_strlit("lv-LV");
    reveal_strlit("lv");
    reveal_strlit("sl-SI");
    reveal_strlit("sl");
    reveal_strlit("he-IL");
    reveal_strlit("he");
    reveal_strlit("fr-CA");
    reveal_strlit("auto");
    reveal_strlit("mt-MT");
    reveal_strlit("nb-NO");
    reveal_strlit("nb");
    reveal_strlit("nn-NO");
    reveal_strlit("nn");
}

proof fn lemma_table_rises_between(i: int, k: int)
    requires
        0 <= i < k < lang_table().len(),
    ensures
        lang_table()[i].1 <= lang_table()[k].1,
        lang_table()[k].0.len() >= 4 ==> lang_table()[i].1 < lang_table()[k].1,
    decreases k - i,
{
    lemma_table_rises(k - 1);
    if i < k - 1 {
        lemma_table_rises_between(i, k - 1);
    }
}

/// Whether `s` is written as the offered locales are: a language in small
/// letters, a dash and a country in capitals; or one word in small letters.
spec fn written_as_offered(s: Seq<char>) -> bool {
    ||| s.len() == 5 && small(s[0]) && small(s[1]) && s[2] == '-' && capital(s[3]) && capital(s[4])
    ||| s.len() == 4 && small(s[0]) && small(s[1]) && small(s[2]) && small(s[3])
}

spec fn small(c: char) -> bool {
    'a' <= c && c <= 'z'
}

spec fn capital(c: char) -> bool {
    'A' <= c && c <= 'Z'
}

proof fn lemma_offered_writing(j: int)
    requires
        0 <= j < offered_locales().len(),
    ensures
        written_as_offered(offered_locales()[j]),
{
    reveal_strlit("auto");
    reveal_strlit("en-US");
    reveal_strlit("en-GB");
    reveal_strlit("es-ES");
    reveal_strlit("es-US");
    reveal_strlit("fr-FR");
    reveal_strlit("fr-CA");
    reveal_strlit("de-DE");
    reveal_strlit("it-IT");
    reveal_strlit("pt-BR");
    reveal_strlit("pt-PT");
    reveal_strlit("nl-NL");
    reveal_strlit("ru-RU");
    reveal_strlit("uk-UA");
    reveal_strlit("pl-PL");
    reveal_strlit("cs-CZ");
    reveal_strlit("sk-SK");
    reveal_strlit("hr-HR");
    reveal_strlit("bg-BG");
    reveal_strlit("sl-SI");
    reveal_strlit("ro-RO");
    reveal_strlit("el-GR");
    reveal_strlit("hu-HU");
    reveal_strlit("sv-SE");
    reveal_strlit("da-DK");
    reveal_strlit("fi-FI");
    reveal_strlit("nb-NO");
    reveal_strlit("nn-NO");
    reveal_strlit("lt-LT");
    reveal_strlit("lv-LV");
    reveal_strlit("et-EE");
    reveal_strlit("tr-TR");
    reveal_strlit("ar-AR");
    reveal_strlit("he-IL");
    reveal_strlit("hi-IN");
    reveal_strlit("ja-JP");
    reveal_strlit("ko-KR");
    reveal_strlit("zh-CN");
    reveal_strlit("th-TH");
    reveal_strlit("vi-VN");
    reveal_strlit("mt-MT");
}

proof fn lemma_same_writing(a: Seq<char>, b: Seq<char>)
    requires
        written_as_offered(a),
        written_as_offered(b),
        same_ignoring_ascii_case(a, b),
    ensures
        a == b,
{
    assert(ascii_lowercase(a).len() == a.len());
    assert(ascii_lowercase(b).len() == b.len());
    assert forall|i: int| 0 <= i < a.len() implies a[i] == b[i] by {
        assert(ascii_lowercase(a)[i] == ascii_lowercase(b)[i]);
        assert(ascii_lower(a[i]) == ascii_lower(b[i]));
    }
    assert(a =~= b);
}

/// Different locales among those offered have different slots.
pub proof fn law_offered_locales_differ_in_slot(i: int, j: int)
    requires
        0 <= i < offered_locales().len(),
        0 <= j < offered_locales().len(),
        offered_locales()[i] != offered_locales()[j],
    ensures
        locale_slot(offered_locales()[i]) != locale_slot(offered_locales()[j]),
{
    let a = offered_locales()[i];
    let b = offered_locales()[j];
    lemma_offered_writing(i);
    lemma_offered_writing(j);
    assert(trim(a) == a);
    assert(trim(b) == b);
    law_offered_locales_have_slots(i);
    law_offered_locales_have_slots(j);
    let k = lemma_found_entry(lang_table(), a, 0);
    let l = lemma_found_entry(lang_table(), b, 0);
    assert(lang_table()[k].0.len() == ascii_lowercase(lang_table()[k].0).len());
    assert(lang_table()[l].0.len() == ascii_lowercase(lang_table()[l].0).len());
    assert(a.len() == ascii_lowercase(a).len());
    assert(b.len() == ascii_lowercase(b).len());
    if k < l {
        lemma_table_rises_between(k, l);
    } else if l < k {
        lemma_table_rises_between(l, k);
    } else {
        lemma_same_writing(a, b);
    }
}

/// A language without a country has the slot of a locale of that language.
pub proof fn law_languages_have_slots_of_their_locales(k: int)
    requires
        0 <= k < lang_table().len(),
        lang_table()[k].0.len() == 2,
    ensures
        k > 0,
        lang_table()[k - 1].0.len() == 5,
        lang_table()[k - 1].0[0] == lang_table()[k].0[0],
        lang_table()[k - 1].0[1] == lang_table()[k].0[1],
        lang_table()[k - 1].1 == lang_table()[k].1,
{
    reveal_strlit("en-US");
    reveal_strlit("en");
    reveal_strlit("en-GB");
    reveal_strlit("es-ES");
    reveal_strlit("es-US");
    reveal_strlit("es");
    reveal_strlit("zh-CN");
    reveal_strlit("zh");
    reveal_strlit("zh-TW");
    reveal_strlit("hi-IN");
    reveal_strlit("hi");
    reveal_strlit("ar-AR");
    reveal_strlit("ar");
    reveal_strlit("fr-FR");
    reveal_strlit("fr");
    reveal_strlit("de-DE");
    reveal_strlit("de");
    reveal_strlit("ja-JP");
    reveal_strlit("ja");
    reveal_strlit("ru-RU");
    reveal_strlit("ru");
    reveal_strlit("pt-BR");
    reveal_strlit("pt-PT");
    reveal_strlit("pt");
    reveal_strlit("ko-KR");
    reveal_strlit("ko");
    reveal_strlit("it-IT");
    reveal_strlit("it");
    reveal_strlit("nl-NL");
    reveal_strlit("nl");
    reveal_strlit("pl-PL");
    reveal_strlit("pl");
    reveal_strlit("tr-TR");
    reveal_strlit("tr");
    reveal_strlit("uk-UA");
    reveal_strlit("uk");
    reveal_strlit("ro-RO");
    reveal_strlit("ro");
    reveal_strlit("el-GR");
    reveal_strlit("el");
    reveal_strlit("cs-CZ");
    reveal_strlit("cs");
    reveal_strlit("hu-HU");
    reveal_strlit("hu");
    reveal_strlit("sv-SE");
    reveal_strlit("sv");
    reveal_strlit("da-DK");
    reveal_strlit("da");
    reveal_strlit("fi-FI");
    reveal_strlit("fi");
    reveal_strlit("no-NO");
    reveal_strlit("no");
    reveal_strlit("sk-SK");
    reveal_strlit("sk");
    reveal_strlit("hr-HR");
    reveal_strlit("hr");
    reveal_strlit("bg-BG");
    reveal_strlit("bg");
    reveal_strlit("lt-LT");
    reveal_strlit("lt");
    reveal_strlit("th-TH");
    reveal_strlit("vi-VN");
    reveal_strlit("et-EE");
    reveal_strlit("et");
    reveal_strlit("lv-LV");
    reveal_strlit("lv");
    reveal_strlit("sl-SI");
    reveal_strlit("sl");
    reveal_strlit("he-IL");
    reveal_strlit("he");
    reveal_strlit("fr-CA");
    reveal_strlit("auto");
    reveal_strlit("mt-MT");
    reveal_strlit("nb-NO");
    reveal_strlit("nb");
    reveal_strlit("nn-NO");
    reveal_strlit("nn");
}

/// The first locales are numbered one after the other, American English first.
pub proof fn law_first_slots_are_consecutive(k: int)
    requires
        0 <= k < lang_table().len(),
        lang_table()[k].0.len() >= 4,
        lang_table()[k].1 <= 33,
    ensures
        k == 0 ==> lang_table()[k].1 == 0,
        k > 0 ==> lang_table()[k].1 == lang_table()[k - 1].1 + 1,
{
    reveal_strlit("en-US");
    reveal_strlit("en");
    reveal_strlit("en-GB");
    reveal_strlit("es-ES");
    reveal_strlit("es-US");
    reveal_strlit("es");
    reveal_strlit("zh-CN");
    reveal_strlit("zh");
    reveal_strlit("zh-TW");
    reveal_strlit("hi-IN");
    reveal_strlit("hi");
    reveal_strlit("ar-AR");
    reveal_strlit("ar");
    reveal_strlit("fr-FR");
    reveal_strlit("fr");
    reveal_strlit("de-DE");
    reveal_strlit("de");
    reveal_strlit("ja-JP");
    reveal_strlit("ja");
    reveal_strlit("ru-RU");
    reveal_strlit("ru");
    reveal_strlit("pt-BR");
    reveal_strlit("pt-PT");
    reveal_strlit("pt");
    reveal_strlit("ko-KR");
    reveal_strlit("ko");
    reveal_strlit("it-IT");
    reveal_strlit("it");
    reveal_strlit("nl-NL");
    reveal_strlit("nl");
    reveal_strlit("pl-PL");
    reveal_strlit("pl");
    reveal_strlit("tr-TR");
    reveal_strlit("tr");
    reveal_strlit("uk-UA");
    reveal_strlit("uk");
    reveal_strlit("ro-RO");
    reveal_strlit("ro");
    reveal_strlit("el-GR");
    reveal_strlit("el");
    reveal_strlit("cs-CZ");
    reveal_strlit("cs");
    reveal_strlit("hu-HU");
    reveal_strlit("hu");
    reveal_strlit("sv-SE");
    reveal_strlit("sv");
    reveal_strlit("da-DK");
    reveal_strlit("da");
    reveal_strlit("fi-FI");
    reveal_strlit("fi");
    reveal_strlit("no-NO");
    reveal_strlit("no");
    reveal_strlit("sk-SK");
    reveal_strlit("sk");
    reveal_strlit("hr-HR");
    reveal_strlit("hr");
    reveal_strlit("bg-BG");
    reveal_strlit("bg");
    reveal_strlit("lt-LT");
    reveal_strlit("lt");
    reveal_strlit("th-TH");
    reveal_strlit("vi-VN");
    reveal_strlit("et-EE");
    reveal_strlit("et");
    reveal_strlit("lv-LV");
    reveal_strlit("lv");
    reveal_strlit("sl-SI");
    reveal_strlit("sl");
    reveal_strlit("he-IL");
    reveal_strlit("he");
    reveal_strlit("fr-CA");
    reveal_strlit("auto");
    reveal_strlit("mt-MT");
    reveal_strlit("nb-NO");
    reveal_strlit("nb");
    reveal_strlit("nn-NO");
    reveal_strlit("nn");
}

} // verus!
