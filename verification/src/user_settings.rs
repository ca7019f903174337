//! Per-user language preferences.

use vstd::prelude::*;
use std::collections::HashMap;
use crate::ids::SpeakerId;
use crate::maps::key_list;
use crate::text::str_eq;

verus! {

/// The language a user speaks and the language to translate into, as
/// codes (`ja`, `ko`, `en`).
#[derive(Debug, Clone)]
pub struct UserLanguageSetting {
    pub source_lang: String,
    pub target_lang: String,
}

/// Mathematical value of a [`UserLanguageSetting`].
pub struct SettingView {
    pub source_lang: Seq<char>,
    pub target_lang: Seq<char>,
}

impl View for UserLanguageSetting {
    type V = SettingView;

    open spec fn view(&self) -> SettingView {
        SettingView { source_lang: self.source_lang@, target_lang: self.target_lang@ }
    }
}

/// The English name of the language with code `lang`; a code without a
/// known name stands for itself.
pub open spec fn full_name_of(lang: Seq<char>) -> Seq<char> {
    if lang == "ja"@ {
        "Japanese"@
    } else if lang == "ko"@ {
        "Korean"@
    } else if lang == "en"@ {
        "English"@
    } else {
        lang
    }
}

/// The English name of the language with code `lang`.
pub fn language_full_name(lang: &str) -> (name: String)
    ensures
        name@ == full_name_of(lang@),
{
    if str_eq(lang, "ja") {
        "Japanese".to_owned()
    } else if str_eq(lang, "ko") {
        "Korean".to_owned()
    } else if str_eq(lang, "en") {
        "English".to_owned()
    } else {
        lang.to_owned()
    }
}

impl UserLanguageSetting {
    pub fn new(source: &str, target: &str) -> (s: Self)
        ensures
            s@ == (SettingView { source_lang: source@, target_lang: target@ }),
    {
        UserLanguageSetting { source_lang: source.to_owned(), target_lang: target.to_owned() }
    }

    /// The English name of the language with code `lang`.
    pub fn to_full_name(&self, lang: &str) -> (name: String)
        ensures
            name@ == full_name_of(lang@),
    {
        language_full_name(lang)
    }

    /// The English name of the source language.
    pub fn get_source_full(&self) -> (name: String)
        ensures
            name@ == full_name_of(self@.source_lang),
    {
        self.to_full_name(self.source_lang.as_str())
    }

    /// The English name of the target language.
    pub fn get_target_full(&self) -> (name: String)
        ensures
            name@ == full_name_of(self@.target_lang),
    {
        self.to_full_name(self.target_lang.as_str())
    }

    /// A copy of the setting.
    pub fn duplicate(&self) -> (s: Self)
        ensures
            s@ == self@,
    {
        UserLanguageSetting::new(self.source_lang.as_str(), self.target_lang.as_str())
    }
}

/// The settings of a hash map, each by its value.
pub open spec fn setting_views(m: Map<SpeakerId, UserLanguageSetting>) -> Map<
    SpeakerId,
    SettingView,
> {
    Map::new(|k: SpeakerId| m.contains_key(k), |k: SpeakerId| m[k]@)
}

/// Whether `list` holds the settings `m`: every user of `m` exactly once,
/// with the setting that `m` has for the user.
pub open spec fn lists_settings(
    m: Map<SpeakerId, SettingView>,
    list: Seq<(SpeakerId, UserLanguageSetting)>,
) -> bool {
    &&& list.len() == m.dom().len()
    &&& forall|i: int|
        0 <= i < list.len() ==> m.contains_key(#[trigger] list[i].0) && list[i].1@ == m[list[i].0]
    &&& forall|i: int, j: int|
        0 <= i < j < list.len() ==> (#[trigger] list[i]).0 != (#[trigger] list[j]).0
    &&& forall|k: SpeakerId| #[trigger]
        m.contains_key(k) ==> exists|i: int| 0 <= i < list.len() && (#[trigger] list[i]).0 == k
}

/// The preference store in memory. Loading from and saving to the file at
/// `file_path` is left to the caller, who saves after every change.
pub struct UserSettingsManager {
    pub settings: HashMap<SpeakerId, UserLanguageSetting>,
    pub file_path: String,
}

impl View for UserSettingsManager {
    type V = Map<SpeakerId, SettingView>;

    open spec fn view(&self) -> Map<SpeakerId, SettingView> {
        setting_views(self.settings@)
    }
}

impl UserSettingsManager {
    /// An empty store that belongs to the file at `file_path`.
    pub fn new(file_path: &str) -> (m: Self)
        ensures
            m@ == Map::<SpeakerId, SettingView>::empty(),
            m.file_path@ == file_path@,
    {
        let m = UserSettingsManager { settings: HashMap::new(), file_path: file_path.to_owned() };
        assert(m@ =~= Map::empty());
        m
    }

    /// Sets the languages of `user_id`, replacing an earlier setting.
    pub fn set_user_language(&mut self, user_id: SpeakerId, source_lang: &str, target_lang: &str)
        ensures
            final(self).file_path == old(self).file_path,
            final(self)@ == old(self)@.insert(
                user_id,
                SettingView { source_lang: source_lang@, target_lang: target_lang@ },
            ),
    {
        broadcast use vstd::std_specs::hash::group_hash_axioms;

        let setting = UserLanguageSetting::new(source_lang, target_lang);
        self.settings.insert(user_id, setting);
        assert(self@ =~= old(self)@.insert(user_id, setting@));
    }

    /// The setting of `user_id`, if there is one.
    pub fn get_user_setting(&self, user_id: SpeakerId) -> (r: Option<UserLanguageSetting>)
        ensures
            match r {
                Some(s) => self@.contains_key(user_id) && s@ == self@[user_id],
                None => !self@.contains_key(user_id),
            },
    {
        broadcast use vstd::std_specs::hash::group_hash_axioms;

        match self.settings.get(&user_id) {
            Some(s) => Some(s.duplicate()),
            None => None,
        }
    }

    /// Forgets the setting of `user_id`.
    pub fn remove_user_setting(&mut self, user_id: SpeakerId)
        ensures
            final(self).file_path == old(self).file_path,
            final(self)@ == old(self)@.remove(user_id),
    {
        broadcast use vstd::std_specs::hash::group_hash_axioms;

        self.settings.remove(&user_id);
        assert(self@ =~= old(self)@.remove(user_id));
    }

    /// All settings, each user once, in no particular order.
    pub fn list_all_settings(&self) -> (list: Vec<(SpeakerId, UserLanguageSetting)>)
        ensures
            lists_settings(self@, list@),
    {
        broadcast use vstd::std_specs::hash::group_hash_axioms;

        let keys = key_list(&self.settings);
        assert(self@.dom() =~= self.settings@.dom());
        let mut list: Vec<(SpeakerId, UserLanguageSetting)> = Vec::new();
        let mut i: usize = 0;
        while i < keys.len()
            invariant
                0 <= i <= keys@.len(),
                keys@.no_duplicates(),
                keys@.to_set() == self@.dom(),
                keys@.len() == self@.dom().len(),
                list@.len() == i,
                forall|j: int| 0 <= j < i ==> (#[trigger] list@[j]).0 == keys@[j],
                forall|j: int|
                    0 <= j < i ==> self@.contains_key(#[trigger] list@[j].0) && list@[j].1@
                        == self@[list@[j].0],
            decreases keys@.len() - i,
        {
            let user_id = keys[i];
            assert(keys@.to_set().contains(user_id));
            match self.settings.get(&user_id) {
                Some(s) => {
                    list.push((user_id, s.duplicate()));
                },
                None => {},
            }
            i = i + 1;
        }
        proof {
            assert forall|k: SpeakerId| #[trigger] self@.contains_key(k) implies exists|i: int|
                0 <= i < list@.len() && (#[trigger] list@[i]).0 == k by {
                assert(keys@.to_set().contains(k));
                let j = choose|j: int| 0 <= j < keys@.len() && keys@[j] == k;
                assert(list@[j].0 == k);
            }
        }
        list
    }
}

} // verus!
