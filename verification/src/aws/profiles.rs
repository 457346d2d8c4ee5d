//! Profiles and SSO sessions of the AWS shared config file.

use vstd::prelude::*;

use crate::strmap::StrMap;
use crate::text;

verus! {

/// One `[profile X]` (or `[default]`) entry of the config file.
#[derive(Debug, Clone)]
pub struct Profile {
    pub name: String,
    pub sso_session: Option<String>,
    pub account_id: Option<String>,
    pub role: Option<String>,
    pub region: Option<String>,
}

/// `Profile` as a mathematical value.
pub struct ProfileView {
    pub name: Seq<char>,
    pub sso_session: Option<Seq<char>>,
    pub account_id: Option<Seq<char>>,
    pub role: Option<Seq<char>>,
    pub region: Option<Seq<char>>,
}

impl View for Profile {
    type V = ProfileView;

    open spec fn view(&self) -> ProfileView {
        ProfileView {
            name: self.name@,
            sso_session: text::opt_view(self.sso_session),
            account_id: text::opt_view(self.account_id),
            role: text::opt_view(self.role),
            region: text::opt_view(self.region),
        }
    }
}

/// The profiles that a sequence holds.
pub open spec fn profiles_view(s: Seq<Profile>) -> Seq<ProfileView> {
    s.map_values(|p: Profile| p@)
}

/// One `[sso-session Y]` entry of the config file.
#[derive(Debug, Clone)]
pub struct SsoSession {
    pub name: String,
    pub start_url: Option<String>,
    pub region: Option<String>,
}

/// `SsoSession` as a mathematical value.
pub struct SsoSessionView {
    pub name: Seq<char>,
    pub start_url: Option<Seq<char>>,
    pub region: Option<Seq<char>>,
}

impl View for SsoSession {
    type V = SsoSessionView;

    open spec fn view(&self) -> SsoSessionView {
        SsoSessionView {
            name: self.name@,
            start_url: text::opt_view(self.start_url),
            region: text::opt_view(self.region),
        }
    }
}

/// The sessions that a map holds.
pub open spec fn sessions_view(m: Map<Seq<char>, SsoSession>) -> Map<Seq<char>, SsoSessionView> {
    m.map_values(|s: SsoSession| s@)
}

/// The profiles and sessions of the config file.
#[derive(Debug, Clone, Default)]
pub struct AwsConfig {
    pub profiles: Vec<Profile>,
    pub sessions: StrMap<SsoSession>,
}

/// One section of the config file: its name, and its keys with their values.
#[derive(Debug)]
pub struct Section {
    pub name: String,
    pub keys: Vec<(String, Option<String>)>,
}

/// `Section` as a mathematical value.
pub struct SectionView {
    pub name: Seq<char>,
    pub keys: Seq<(Seq<char>, Option<Seq<char>>)>,
}

impl View for Section {
    type V = SectionView;

    open spec fn view(&self) -> SectionView {
        SectionView {
            name: self.name@,
            keys: self.keys@.map_values(
                |k: (String, Option<String>)| (k.0@, text::opt_view(k.1)),
            ),
        }
    }
}

/// The sections that a sequence holds.
pub open spec fn sections_view(s: Seq<Section>) -> Seq<SectionView> {
    s.map_values(|x: Section| x@)
}

/// The keys are those of `m`, each once, with their values.
pub open spec fn keys_of(
    keys: Seq<(Seq<char>, Option<Seq<char>>)>,
    m: Map<Seq<char>, Option<Seq<char>>>,
) -> bool {
    &&& forall|i: int, j: int|
        0 <= i < keys.len() && 0 <= j < keys.len() && (#[trigger] keys[i]).0 == (
        #[trigger] keys[j]).0 ==> i == j
    &&& forall|i: int|
        0 <= i < keys.len() ==> m.contains_key((#[trigger] keys[i]).0) && m[keys[i].0] == keys[i].1
    &&& forall|k: Seq<char>| #[trigger]
        m.contains_key(k) ==> exists|i: int| 0 <= i < keys.len() && (#[trigger] keys[i]).0 == k
}

/// The sections are those of `m`, each once, with their keys.
pub open spec fn sections_of(
    sections: Seq<SectionView>,
    m: Map<Seq<char>, Map<Seq<char>, Option<Seq<char>>>>,
) -> bool {
    &&& forall|i: int, j: int|
        0 <= i < sections.len() && 0 <= j < sections.len() && (#[trigger] sections[i]).name == (
        #[trigger] sections[j]).name ==> i == j
    &&& forall|i: int|
        0 <= i < sections.len() ==> m.contains_key((#[trigger] sections[i]).name) && keys_of(
            sections[i].keys,
            m[sections[i].name],
        )
    &&& forall|k: Seq<char>| #[trigger]
        m.contains_key(k) ==> exists|i: int|
            0 <= i < sections.len() && (#[trigger] sections[i]).name == k
}

/// What a case-sensitive `configparser::ini::Ini` reads out of a text: the
/// sections with their keys, or the reason why it reads nothing.
pub uninterp spec fn ini_contents(s: Seq<char>) -> Result<
    Map<Seq<char>, Map<Seq<char>, Option<Seq<char>>>>,
    Seq<char>,
>;

/// `configparser::ini::Ini::read` on `Ini::new_cs()`. The contents are a
/// function of the text alone; the order in which the sections, and the keys of
/// a section, come out is not, for they are kept in hash maps.
#[verifier::external_body]
fn read_ini(s: &str) -> (r: Result<Vec<Section>, String>)
    ensures
        match (r, ini_contents(s@)) {
            (Ok(sections), Ok(m)) => sections_of(sections_view(sections@), m),
            (Err(e), Err(reason)) => e@ == reason,
            _ => false,
        },
{
    match configparser::ini::Ini::new_cs().read(s.to_string()) {
        Ok(map) => Ok(
            map.into_iter().map(
                |(name, keys)| Section { name, keys: keys.into_iter().collect() },
            ).collect(),
        ),
        Err(e) => Err(e),
    }
}

/// The value of the first key named `key`, where it has one.
pub open spec fn key_value(keys: Seq<(Seq<char>, Option<Seq<char>>)>, key: Seq<char>) -> Option<
    Seq<char>,
>
    decreases keys.len(),
{
    if keys.len() == 0 {
        None
    } else if keys[0].0 == key {
        keys[0].1
    } else {
        key_value(keys.drop_first(), key)
    }
}

impl Section {
    /// The value of `key` in the section, where it has one.
    pub fn get(&self, key: &str) -> (r: Option<String>)
        ensures
            text::opt_view(r) == key_value(self@.keys, key@),
    {
        let ghost keys = self@.keys;
        assert(keys.skip(0) =~= keys);
        for i in 0..self.keys.len()
            invariant
                keys == self@.keys,
                key_value(keys, key@) == key_value(keys.skip(i as int), key@),
        {
            assert(keys.skip(i as int).drop_first() =~= keys.skip(i + 1));
            assert(keys.skip(i as int)[0] == (
                self.keys@[i as int].0@,
                text::opt_view(self.keys@[i as int].1),
            ));
            if text::str_eq(self.keys[i].0.as_str(), key) {
                return match &self.keys[i].1 {
                    Some(v) => Some(v.clone()),
                    None => None,
                };
            }
        }
        None
    }
}

/// The name of the profile that a section describes, if it describes one.
pub open spec fn profile_name(section: Seq<char>) -> Option<Seq<char>> {
    if section == "default"@ {
        Some("default"@)
    } else {
        text::after_prefix(section, "profile "@)
    }
}

/// The name of the SSO session that a section describes, if it describes one.
pub open spec fn session_name(section: Seq<char>) -> Option<Seq<char>> {
    if profile_name(section) is Some {
        None
    } else {
        text::after_prefix(section, "sso-session "@)
    }
}

/// The profile that a section describes.
pub open spec fn profile_of(section: SectionView, name: Seq<char>) -> ProfileView {
    ProfileView {
        name,
        sso_session: key_value(section.keys, "sso_session"@),
        account_id: key_value(section.keys, "sso_account_id"@),
        role: key_value(section.keys, "sso_role_name"@),
        region: key_value(section.keys, "region"@),
    }
}

/// The SSO session that a section describes.
pub open spec fn session_of(section: SectionView, name: Seq<char>) -> SsoSessionView {
    SsoSessionView {
        name,
        start_url: key_value(section.keys, "sso_start_url"@),
        region: key_value(section.keys, "sso_region"@),
    }
}

/// The profiles that the sections describe, in their order.
pub open spec fn section_profiles(sections: Seq<SectionView>) -> Seq<ProfileView>
    decreases sections.len(),
{
    if sections.len() == 0 {
        Seq::empty()
    } else {
        let before = section_profiles(sections.drop_last());
        match profile_name(sections.last().name) {
            Some(name) => before.push(profile_of(sections.last(), name)),
            None => before,
        }
    }
}

/// The SSO sessions that the sections describe, by name.
pub open spec fn section_sessions(sections: Seq<SectionView>) -> Map<Seq<char>, SsoSessionView>
    decreases sections.len(),
{
    if sections.len() == 0 {
        Map::empty()
    } else {
        let before = section_sessions(sections.drop_last());
        match session_name(sections.last().name) {
            Some(name) => before.insert(name, session_of(sections.last(), name)),
            None => before,
        }
    }
}

/// `cfg` holds what the sections describe.
pub open spec fn describes(sections: Seq<SectionView>, cfg: AwsConfig) -> bool {
    &&& profiles_view(cfg.profiles@) == section_profiles(sections)
    &&& sessions_view(cfg.sessions@) == section_sessions(sections)
}

fn profile_from(section: &Section, name: String) -> (r: Profile)
    ensures
        r@ == profile_of(section@, name@),
{
    Profile {
        name,
        sso_session: section.get("sso_session"),
        account_id: section.get("sso_account_id"),
        role: section.get("sso_role_name"),
        region: section.get("region"),
    }
}

/// The profiles and sessions that the sections describe.
pub fn from_sections(sections: &Vec<Section>) -> (r: AwsConfig)
    ensures
        describes(sections_view(sections@), r),
{
    let mut profiles: Vec<Profile> = Vec::new();
    let mut sessions: StrMap<SsoSession> = StrMap::new();
    let ghost all = sections_view(sections@);
    assert(all.take(0) =~= Seq::empty());
    assert(profiles_view(profiles@) =~= section_profiles(all.take(0)));
    assert(sessions_view(sessions@) =~= section_sessions(all.take(0)));
    for i in 0..sections.len()
        invariant
            all == sections_view(sections@),
            profiles_view(profiles@) == section_profiles(all.take(i as int)),
            sessions_view(sessions@) == section_sessions(all.take(i as int)),
    {
        let section = &sections[i];
        let ghost profiles_before = profiles_view(profiles@);
        let ghost sessions_before = sessions_view(sessions@);
        assert(all.take(i + 1).drop_last() =~= all.take(i as int));
        assert(all.take(i + 1).last() == section@);
        if text::str_eq(section.name.as_str(), "default") {
            let p = profile_from(section, "default".to_string());
            profiles.push(p);
            assert(profiles_view(profiles@) =~= profiles_before.push(p@));
        } else if let Some(name) = text::strip_prefix(section.name.as_str(), "profile ") {
            let p = profile_from(section, name);
            profiles.push(p);
            assert(profiles_view(profiles@) =~= profiles_before.push(p@));
        } else if let Some(name) = text::strip_prefix(section.name.as_str(), "sso-session ") {
            let s = SsoSession {
                name: name.clone(),
                start_url: section.get("sso_start_url"),
                region: section.get("sso_region"),
            };
            sessions.insert(name, s);
            assert(sessions_view(sessions@) =~= sessions_before.insert(name@, s@));
        }
    }
    assert(all.take(all.len() as int) =~= all);
    AwsConfig { profiles, sessions }
}

/// `cfg` holds what the contents of a config file describe, the profiles in
/// whichever order the sections are walked.
pub open spec fn holds(
    m: Map<Seq<char>, Map<Seq<char>, Option<Seq<char>>>>,
    cfg: AwsConfig,
) -> bool {
    exists|sections: Seq<SectionView>|
        sections_of(sections, m) && #[trigger] describes(sections, cfg)
}

/// What was found at the place of the config file.
#[derive(Debug)]
pub enum ConfigFile {
    /// There is no file.
    Missing,
    /// The file could not be read, for the given reason.
    Unreadable(String),
    /// The file's text.
    Text(String),
}

/// The message for a config file at `path` that cannot be used.
pub open spec fn load_error(path: Seq<char>, why: Seq<char>) -> Seq<char> {
    "reading AWS config: parsing "@ + path + ": couldn't read "@ + path + ": "@ + why
}

/// The message for a config file at `path` that cannot be used.
pub fn load_error_message(path: &str, why: &str) -> (r: String)
    ensures
        r@ == load_error(path@, why@),
{
    let mut r = "reading AWS config: parsing ".to_string();
    r.append(path);
    r.append(": couldn't read ");
    r.append(path);
    r.append(": ");
    r.append(why);
    r
}

/// Parses the config file at `path` into profiles and SSO sessions. Names are
/// case-sensitive, so that they survive verbatim for `--profile`. Without a file
/// there are none.
pub fn load(path: &str, file: &ConfigFile) -> (r: Result<AwsConfig, String>)
    ensures
        *file is Missing ==> r is Ok && describes(Seq::empty(), r->Ok_0),
        *file matches ConfigFile::Unreadable(why) ==> r is Err && r->Err_0@ == load_error(
            path@,
            why@,
        ),
        *file matches ConfigFile::Text(s) ==> match ini_contents(s@) {
            Ok(m) => r is Ok && holds(m, r->Ok_0),
            Err(why) => r is Err && r->Err_0@ == load_error(path@, why),
        },
{
    match file {
        ConfigFile::Missing => {
            let sections: Vec<Section> = Vec::new();
            let cfg = from_sections(&sections);
            assert(sections_view(sections@) =~= Seq::<SectionView>::empty());
            assert(describes(Seq::<SectionView>::empty(), cfg));
            Ok(cfg)
        },
        ConfigFile::Unreadable(why) => Err(load_error_message(path, why.as_str())),
        ConfigFile::Text(s) => match read_ini(s.as_str()) {
            Ok(sections) => {
                let cfg = from_sections(&sections);
                assert(describes(sections_view(sections@), cfg));
                Ok(cfg)
            },
            Err(why) => Err(load_error_message(path, why.as_str())),
        },
    }
}

/// The value of a key of a section, where the section has the key with a value.
pub open spec fn ini_value(
    m: Map<Seq<char>, Map<Seq<char>, Option<Seq<char>>>>,
    section: Seq<char>,
    key: Seq<char>,
) -> Option<Seq<char>> {
    if m.contains_key(section) && m[section].contains_key(key) {
        m[section][key]
    } else {
        None
    }
}

/// The profile named `name` that the section `section` describes.
pub open spec fn ini_profile(
    m: Map<Seq<char>, Map<Seq<char>, Option<Seq<char>>>>,
    section: Seq<char>,
    name: Seq<char>,
) -> ProfileView {
    ProfileView {
        name,
        sso_session: ini_value(m, section, "sso_session"@),
        account_id: ini_value(m, section, "sso_account_id"@),
        role: ini_value(m, section, "sso_role_name"@),
        region: ini_value(m, section, "region"@),
    }
}

proof fn lemma_after_prefix(s: Seq<char>, prefix: Seq<char>, rest: Seq<char>)
    ensures
        text::after_prefix(s, prefix) == Some(rest) <==> s == prefix + rest,
{
    if text::after_prefix(s, prefix) == Some(rest) {
        assert(s =~= prefix + rest);
    }
    if s == prefix + rest {
        assert(s.take(prefix.len() as int) =~= prefix);
        assert(s.skip(prefix.len() as int) =~= rest);
    }
}

proof fn lemma_key_value(
    keys: Seq<(Seq<char>, Option<Seq<char>>)>,
    m: Map<Seq<char>, Option<Seq<char>>>,
    key: Seq<char>,
)
    requires
        keys_of(keys, m),
    ensures
        key_value(keys, key) == if m.contains_key(key) {
            m[key]
        } else {
            None
        },
{
    if m.contains_key(key) {
        let i = choose|i: int| 0 <= i < keys.len() && (#[trigger] keys[i]).0 == key;
        lemma_key_value_at(keys, i);
    } else {
        lemma_key_value_absent(keys, key);
    }
}

proof fn lemma_key_value_at(keys: Seq<(Seq<char>, Option<Seq<char>>)>, i: int)
    requires
        0 <= i < keys.len(),
        forall|a: int, b: int|
            0 <= a < keys.len() && 0 <= b < keys.len() && (#[trigger] keys[a]).0 == (
            #[trigger] keys[b]).0 ==> a == b,
    ensures
        key_value(keys, keys[i].0) == keys[i].1,
    decreases keys.len(),
{
    if i > 0 {
        assert(keys[0].0 != keys[i].0);
        let rest = keys.drop_first();
        assert forall|a: int, b: int|
            0 <= a < rest.len() && 0 <= b < rest.len() && (#[trigger] rest[a]).0 == (
            #[trigger] rest[b]).0 implies a == b by {
            assert(rest[a] == keys[a + 1]);
            assert(rest[b] == keys[b + 1]);
        }
        lemma_key_value_at(rest, i - 1);
        assert(rest[i - 1] == keys[i]);
    }
}

proof fn lemma_key_value_absent(keys: Seq<(Seq<char>, Option<Seq<char>>)>, key: Seq<char>)
    requires
        forall|i: int| 0 <= i < keys.len() ==> (#[trigger] keys[i]).0 != key,
    ensures
        key_value(keys, key) is None,
    decreases keys.len(),
{
    if keys.len() > 0 {
        assert forall|i: int| 0 <= i < keys.drop_first().len() implies (
        #[trigger] keys.drop_first()[i]).0 != key by {
            assert(keys.drop_first()[i] == keys[i + 1]);
        }
        lemma_key_value_absent(keys.drop_first(), key);
    }
}

proof fn lemma_section_profiles(sections: Seq<SectionView>, i: int, name: Seq<char>)
    requires
        0 <= i < sections.len(),
        profile_name(sections[i].name) == Some(name),
    ensures
        section_profiles(sections).contains(profile_of(sections[i], name)),
    decreases sections.len(),
{
    let before = section_profiles(sections.drop_last());
    if i == sections.len() - 1 {
        let all = section_profiles(sections);
        assert(all[all.len() - 1] == profile_of(sections[i], name));
    } else {
        lemma_section_profiles(sections.drop_last(), i, name);
        let p = profile_of(sections[i], name);
        let j = before.index_of(p);
        assert(before[j] == p);
        assert(section_profiles(sections)[j] == p);
    }
}

proof fn lemma_profile_has_section(sections: Seq<SectionView>, j: int) -> (i: int)
    requires
        0 <= j < section_profiles(sections).len(),
    ensures
        0 <= i < sections.len(),
        profile_name(sections[i].name) is Some,
        section_profiles(sections)[j] == profile_of(
            sections[i],
            profile_name(sections[i].name).unwrap(),
        ),
    decreases sections.len(),
{
    let before = section_profiles(sections.drop_last());
    if j == before.len() {
        sections.len() - 1
    } else {
        lemma_profile_has_section(sections.drop_last(), j)
    }
}

proof fn lemma_section_sessions(sections: Seq<SectionView>, name: Seq<char>)
    ensures
        section_sessions(sections).contains_key(name) <==> exists|i: int|
            0 <= i < sections.len() && session_name((#[trigger] sections[i]).name) == Some(name),
        section_sessions(sections).contains_key(name) ==> exists|i: int|
            0 <= i < sections.len() && session_name((#[trigger] sections[i]).name) == Some(name)
                && section_sessions(sections)[name] == session_of(sections[i], name),
    decreases sections.len(),
{
    if sections.len() > 0 {
        let before = sections.drop_last();
        let last = sections.len() - 1;
        lemma_section_sessions(before, name);
        if session_name(sections[last].name) == Some(name) {
            assert(section_sessions(sections)[name] == session_of(sections[last], name));
        } else {
            assert(section_sessions(sections).contains_key(name) == section_sessions(
                before,
            ).contains_key(name));
            if section_sessions(before).contains_key(name) {
                let i = choose|i: int|
                    0 <= i < before.len() && session_name((#[trigger] before[i]).name) == Some(
                        name,
                    ) && section_sessions(before)[name] == session_of(before[i], name);
                assert(sections[i] == before[i]);
                assert(section_sessions(sections)[name] == session_of(sections[i], name));
            } else {
                assert forall|i: int| 0 <= i < sections.len() implies session_name(
                    (#[trigger] sections[i]).name,
                ) != Some(name) by {
                    if i < last {
                        assert(before[i] == sections[i]);
                    }
                }
            }
        }
    }
}

/// Every profile of the config file is shown, and nothing else: each section
/// `[profile X]` gives the profile `X`, name and values verbatim, and `[default]`
/// the profile `default`.
pub proof fn law_every_profile_is_listed(
    sections: Seq<SectionView>,
    m: Map<Seq<char>, Map<Seq<char>, Option<Seq<char>>>>,
)
    requires
        sections_of(sections, m),
    ensures
        forall|name: Seq<char>|
            m.contains_key("profile "@ + name) ==> #[trigger] section_profiles(sections).contains(
                ini_profile(m, "profile "@ + name, name),
            ),
        m.contains_key("default"@) ==> section_profiles(sections).contains(
            ini_profile(m, "default"@, "default"@),
        ),
        forall|p: ProfileView| #[trigger]
            section_profiles(sections).contains(p) ==> (m.contains_key("profile "@ + p.name) && p
                == ini_profile(m, "profile "@ + p.name, p.name)) || (p.name == "default"@
                && m.contains_key("default"@) && p == ini_profile(m, "default"@, "default"@)),
{
    assert forall|i: int, name: Seq<char>| 0 <= i < sections.len() implies #[trigger] profile_of(
        sections[i],
        name,
    ) == ini_profile(m, sections[i].name, name) by {
        let keys = sections[i].keys;
        let values = m[sections[i].name];
        lemma_key_value(keys, values, "sso_session"@);
        lemma_key_value(keys, values, "sso_account_id"@);
        lemma_key_value(keys, values, "sso_role_name"@);
        lemma_key_value(keys, values, "region"@);
    }
    assert forall|name: Seq<char>| m.contains_key("profile "@ + name) implies #[trigger] section_profiles(
        sections,
    ).contains(ini_profile(m, "profile "@ + name, name)) by {
        let section = "profile "@ + name;
        let i = choose|i: int| 0 <= i < sections.len() && (#[trigger] sections[i]).name == section;
        lemma_after_prefix(section, "profile "@, name);
        assert(section != "default"@) by {
            reveal_strlit("default");
            reveal_strlit("profile ");
            assert(section[0] == 'p');
        }
        lemma_section_profiles(sections, i, name);
        assert(profile_of(sections[i], name) == ini_profile(m, section, name));
    }
    if m.contains_key("default"@) {
        let i = choose|i: int|
            0 <= i < sections.len() && (#[trigger] sections[i]).name == "default"@;
        lemma_section_profiles(sections, i, "default"@);
        assert(profile_of(sections[i], "default"@) == ini_profile(m, "default"@, "default"@));
    }
    assert forall|p: ProfileView| #[trigger] section_profiles(sections).contains(p) implies (
    m.contains_key("profile "@ + p.name) && p == ini_profile(m, "profile "@ + p.name, p.name)) || (
    p.name == "default"@ && m.contains_key("default"@) && p == ini_profile(
        m,
        "default"@,
        "default"@,
    )) by {
        let j = section_profiles(sections).index_of(p);
        let i = lemma_profile_has_section(sections, j);
        let name = profile_name(sections[i].name).unwrap();
        assert(p == profile_of(sections[i], name));
        if sections[i].name != "default"@ {
            lemma_after_prefix(sections[i].name, "profile "@, name);
        }
    }
}

/// Every SSO session of the config file is known under its name, and nothing else.
pub proof fn law_every_session_is_known(
    sections: Seq<SectionView>,
    m: Map<Seq<char>, Map<Seq<char>, Option<Seq<char>>>>,
)
    requires
        sections_of(sections, m),
    ensures
        forall|name: Seq<char>| #[trigger]
            section_sessions(sections).contains_key(name) <==> m.contains_key(
                "sso-session "@ + name,
            ),
        forall|name: Seq<char>| #[trigger]
            section_sessions(sections).contains_key(name) ==> section_sessions(sections)[name] == (
            SsoSessionView {
                name,
                start_url: ini_value(m, "sso-session "@ + name, "sso_start_url"@),
                region: ini_value(m, "sso-session "@ + name, "sso_region"@),
            }),
{
    assert forall|name: Seq<char>| #[trigger]
        section_sessions(sections).contains_key(name) <==> m.contains_key(
            "sso-session "@ + name,
        ) by {
        let section = "sso-session "@ + name;
        lemma_section_sessions(sections, name);
        lemma_session_section(section, name);
        if m.contains_key(section) {
            let i = choose|i: int|
                0 <= i < sections.len() && (#[trigger] sections[i]).name == section;
            assert(session_name(sections[i].name) == Some(name));
        }
        if section_sessions(sections).contains_key(name) {
            let i = choose|i: int|
                0 <= i < sections.len() && session_name((#[trigger] sections[i]).name) == Some(
                    name,
                );
            lemma_session_section(sections[i].name, name);
        }
    }
    assert forall|name: Seq<char>| #[trigger]
        section_sessions(sections).contains_key(name) implies section_sessions(sections)[name] == (
    SsoSessionView {
        name,
        start_url: ini_value(m, "sso-session "@ + name, "sso_start_url"@),
        region: ini_value(m, "sso-session "@ + name, "sso_region"@),
    }) by {
        lemma_section_sessions(sections, name);
        let i = choose|i: int|
            0 <= i < sections.len() && session_name((#[trigger] sections[i]).name) == Some(name)
                && section_sessions(sections)[name] == session_of(sections[i], name);
        lemma_session_section(sections[i].name, name);
        lemma_key_value(sections[i].keys, m[sections[i].name], "sso_start_url"@);
        lemma_key_value(sections[i].keys, m[sections[i].name], "sso_region"@);
    }
}

proof fn lemma_session_section(section: Seq<char>, name: Seq<char>)
    ensures
        session_name(section) == Some(name) <==> section == "sso-session "@ + name,
{
    lemma_after_prefix(section, "sso-session "@, name);
    if section == "sso-session "@ + name {
        reveal_strlit("default");
        reveal_strlit("profile ");
        reveal_strlit("sso-session ");
        assert(section[0] == 's');
        assert(section.take("profile "@.len() as int) != "profile "@) by {
            if section.len() >= "profile "@.len() {
                assert(section.take("profile "@.len() as int)[0] == 's');
            } else {
                assert(section.len() >= 12);
            }
        }
    }
}

} // verus!
