//! Personas: roles that the brain can take.

use crate::keyed::{find_keyed, keyed_index, Keyed};
use crate::memory::error::{MemoryError, MemoryErrorView};
use crate::paths::{join_path, path_of};
use crate::replicate::Replicate;
use crate::seqs::{lemma_first_index, lemma_first_index_some};
use crate::text::same;
use crate::walk::{no_items, push_one};
use crate::weights::SEVEN_TENTHS;
use vstd::prelude::*;

verus! {

/// How a persona is set up.
#[derive(Debug, PartialEq)]
pub struct PersonaConfig {
    pub language: String,
    pub output_style: String,
    pub model_override: Option<String>,
    /// The bits of how strict evaluations are, from 0 to 1.
    pub eval_sensitivity: u64,
    /// After how many turns the conversation is analysed.
    pub analysis_interval: u32,
}

/// What a setup is.
#[verifier::ext_equal]
pub struct PersonaConfigView {
    pub language: Seq<char>,
    pub output_style: Seq<char>,
    pub model_override: Option<Seq<char>>,
    pub eval_sensitivity: u64,
    pub analysis_interval: u32,
}

impl DeepView for PersonaConfig {
    type V = PersonaConfigView;

    open spec fn deep_view(&self) -> PersonaConfigView {
        PersonaConfigView {
            language: self.language@,
            output_style: self.output_style@,
            model_override: self.model_override.deep_view(),
            eval_sensitivity: self.eval_sensitivity,
            analysis_interval: self.analysis_interval,
        }
    }
}

impl Replicate for PersonaConfig {
    fn replicate(&self) -> (r: Self) {
        PersonaConfig {
            language: self.language.clone(),
            output_style: self.output_style.clone(),
            model_override: self.model_override.replicate(),
            eval_sensitivity: self.eval_sensitivity,
            analysis_interval: self.analysis_interval,
        }
    }
}

/// The setup that a persona has at first.
pub open spec fn default_config() -> PersonaConfigView {
    PersonaConfigView {
        language: "zh-CN"@,
        output_style: "concise"@,
        model_override: None,
        eval_sensitivity: SEVEN_TENTHS,
        analysis_interval: 5,
    }
}

impl Default for PersonaConfig {
    fn default() -> (r: Self)
        ensures
            r.deep_view() == default_config(),
    {
        PersonaConfig {
            language: "zh-CN".to_owned(),
            output_style: "concise".to_owned(),
            model_override: None,
            eval_sensitivity: SEVEN_TENTHS,
            analysis_interval: 5,
        }
    }
}

/// A persona.
#[derive(Debug, PartialEq)]
pub struct Persona {
    pub id: String,
    pub name: String,
    pub description: String,
    pub system_prompt: String,
    pub config: PersonaConfig,
    pub created_at: i64,
    pub last_active_at: i64,
}

/// What a persona is.
#[verifier::ext_equal]
pub struct PersonaView {
    pub id: Seq<char>,
    pub name: Seq<char>,
    pub description: Seq<char>,
    pub system_prompt: Seq<char>,
    pub config: PersonaConfigView,
    pub created_at: i64,
    pub last_active_at: i64,
}

impl DeepView for Persona {
    type V = PersonaView;

    open spec fn deep_view(&self) -> PersonaView {
        PersonaView {
            id: self.id@,
            name: self.name@,
            description: self.description@,
            system_prompt: self.system_prompt@,
            config: self.config.deep_view(),
            created_at: self.created_at,
            last_active_at: self.last_active_at,
        }
    }
}

impl Replicate for Persona {
    fn replicate(&self) -> (r: Self) {
        Persona {
            id: self.id.clone(),
            name: self.name.clone(),
            description: self.description.clone(),
            system_prompt: self.system_prompt.clone(),
            config: self.config.replicate(),
            created_at: self.created_at,
            last_active_at: self.last_active_at,
        }
    }
}

impl Keyed for Persona {
    open spec fn key_of(v: PersonaView) -> Seq<char> {
        v.id
    }

    fn key(&self) -> (r: &str) {
        self.id.as_str()
    }
}

/// The persona that is there at first.
pub open spec fn first_persona(now: i64) -> PersonaView {
    PersonaView {
        id: "default"@,
        name: "智脑"@,
        description: "默认人格，通用AI助手"@,
        system_prompt: ""@,
        config: default_config(),
        created_at: now,
        last_active_at: now,
    }
}

impl Persona {
    /// The persona that is there at first.
    pub fn default_persona(now: i64) -> (r: Self)
        ensures
            r.deep_view() == first_persona(now),
    {
        Persona {
            id: "default".to_owned(),
            name: "智脑".to_owned(),
            description: "默认人格，通用AI助手".to_owned(),
            system_prompt: "".to_owned(),
            config: PersonaConfig::default(),
            created_at: now,
            last_active_at: now,
        }
    }
}

/// The personas there are, and which is active.
#[derive(Debug, PartialEq)]
pub struct PersonaRegistry {
    pub personas: Vec<Persona>,
    pub active_persona_id: String,
    pub updated_at: i64,
}

/// What a registry is.
#[verifier::ext_equal]
pub struct PersonaRegistryView {
    pub personas: Seq<PersonaView>,
    pub active_persona_id: Seq<char>,
    pub updated_at: i64,
}

impl DeepView for PersonaRegistry {
    type V = PersonaRegistryView;

    open spec fn deep_view(&self) -> PersonaRegistryView {
        PersonaRegistryView {
            personas: self.personas.deep_view(),
            active_persona_id: self.active_persona_id@,
            updated_at: self.updated_at,
        }
    }
}

impl Replicate for PersonaRegistry {
    fn replicate(&self) -> (r: Self) {
        PersonaRegistry {
            personas: self.personas.replicate(),
            active_persona_id: self.active_persona_id.clone(),
            updated_at: self.updated_at,
        }
    }
}

impl PersonaRegistry {
    /// A registry with the persona that is there at first.
    pub fn with_default(now: i64) -> (r: Self)
        ensures
            r.deep_view() == (PersonaRegistryView {
                personas: seq![first_persona(now)],
                active_persona_id: "default"@,
                updated_at: now,
            }),
    {
        let mut personas: Vec<Persona> = no_items();
        push_one(&mut personas, Persona::default_persona(now));
        assert(personas.deep_view() =~= seq![first_persona(now)]);
        PersonaRegistry { personas, active_persona_id: "default".to_owned(), updated_at: now }
    }
}

/// What manages the personas.
pub struct PersonaManager {
    pub base_dir: String,
    pub registry: PersonaRegistry,
}

/// The position of the active persona; the first where none has its id.
pub open spec fn active_index(r: PersonaRegistryView) -> int {
    match keyed_index::<Persona>(r.personas, r.active_persona_id) {
        Some(i) => i,
        None => 0,
    }
}

/// The active persona.
pub open spec fn active_persona(r: PersonaRegistryView) -> PersonaView {
    r.personas[active_index(r)]
}

/// A persona has the active id.
pub open spec fn has_active(r: PersonaRegistryView) -> bool {
    keyed_index::<Persona>(r.personas, r.active_persona_id) is Some
}

/// The registry with another persona active, or why it cannot be.
pub open spec fn switched(
    r: PersonaRegistryView,
    id: Seq<char>,
    now: i64,
) -> Result<PersonaRegistryView, MemoryErrorView> {
    match keyed_index::<Persona>(r.personas, id) {
        Some(i) => Ok(
            PersonaRegistryView {
                active_persona_id: id,
                personas: r.personas.update(
                    i,
                    PersonaView { last_active_at: now, ..r.personas[i] },
                ),
                ..r
            },
        ),
        None => Err(MemoryErrorView::NotFound("人格不存在: "@ + id)),
    }
}

/// The registry without a persona, or why it cannot go.
pub open spec fn deleted(
    r: PersonaRegistryView,
    id: Seq<char>,
) -> Result<PersonaRegistryView, MemoryErrorView> {
    if id == "default"@ {
        Err(MemoryErrorView::Conflict("不能删除默认人格"@))
    } else if id == r.active_persona_id {
        Err(MemoryErrorView::Conflict("不能删除当前激活的人格"@))
    } else {
        match keyed_index::<Persona>(r.personas, id) {
            Some(i) => Ok(PersonaRegistryView { personas: r.personas.remove(i), ..r }),
            None => Err(MemoryErrorView::NotFound("人格不存在: "@ + id)),
        }
    }
}

/// What the active persona adds to a prompt.
pub open spec fn persona_prompt(p: PersonaView) -> Seq<char> {
    if p.system_prompt.len() == 0 {
        ""@
    } else {
        "[人格: "@ + p.name + "]\n"@ + p.system_prompt + "\n[语言: "@ + p.config.language
            + ", 风格: "@ + p.config.output_style + "]"@
    }
}

impl PersonaManager {
    /// A manager of the registry that was kept, or of a new one.
    pub fn load_or_create(base_dir: &str, kept: Option<PersonaRegistry>, now: i64) -> (r: Self)
        ensures
            r.base_dir@ == base_dir@,
            match kept {
                Some(k) => r.registry == k,
                None => r.registry.deep_view() == (PersonaRegistryView {
                    personas: seq![first_persona(now)],
                    active_persona_id: "default"@,
                    updated_at: now,
                }),
            },
    {
        let registry = match kept {
            Some(k) => k,
            None => PersonaRegistry::with_default(now),
        };
        PersonaManager { base_dir: base_dir.to_owned(), registry }
    }

    /// The file of the registry.
    pub fn registry_path(&self) -> (r: String)
        ensures
            r@ == path_of(path_of(self.base_dir@, "personas"@), "registry.json"@),
    {
        let dir = join_path(self.base_dir.as_str(), "personas");
        join_path(dir.as_str(), "registry.json")
    }

    /// The directory of a persona.
    pub fn persona_dir(&self, persona_id: &str) -> (r: String)
        ensures
            r@ == path_of(path_of(self.base_dir@, "personas"@), persona_id@),
    {
        let dir = join_path(self.base_dir.as_str(), "personas");
        join_path(dir.as_str(), persona_id)
    }

    /// The personas there are.
    pub fn list(&self) -> (r: &[Persona])
        ensures
            r.deep_view() == self.registry.deep_view().personas,
    {
        let r = self.registry.personas.as_slice();
        assert(r.deep_view() =~= self.registry.deep_view().personas);
        r
    }

    /// The active persona.
    pub fn active(&self) -> (r: &Persona)
        requires
            self.registry.personas@.len() > 0,
        ensures
            r.deep_view() == active_persona(self.registry.deep_view()),
    {
        let i: usize = match find_keyed(
            &self.registry.personas,
            self.registry.active_persona_id.as_str(),
        ) {
            Some(i) => i,
            None => 0,
        };
        &self.registry.personas[i]
    }

    /// The id of the active persona.
    pub fn active_id(&self) -> (r: &str)
        ensures
            r@ == self.registry.active_persona_id@,
    {
        self.registry.active_persona_id.as_str()
    }

    /// Makes another persona active.
    pub fn switch(&mut self, persona_id: &str, now: i64) -> (r: Result<Persona, MemoryError>)
        ensures
            final(self).base_dir == old(self).base_dir,
            match switched(old(self).registry.deep_view(), persona_id@, now) {
                Ok(s) => r is Ok && final(self).registry.deep_view() == s && r->Ok_0.deep_view()
                    == active_persona(s),
                Err(e) => r is Err && r->Err_0.deep_view() == e && final(self).registry
                    == old(self).registry,
            },
    {
        match find_keyed(&self.registry.personas, persona_id) {
            Some(i) => {
                let ghost before = self.registry.deep_view();
                let mut p = self.registry.personas[i].replicate();
                assert(p.deep_view() == before.personas[i as int]);
                p.last_active_at = now;
                let copy = p.replicate();
                self.registry.personas.set(i, p);
                self.registry.active_persona_id = persona_id.to_owned();
                proof {
                    let v = PersonaView { last_active_at: now, ..before.personas[i as int] };
                    assert(p.deep_view() =~= v);
                    let after = before.personas.update(i as int, v);
                    assert(self.registry.personas.deep_view() =~= after);
                    let q = crate::keyed::with_key::<Persona>(persona_id@);
                    lemma_first_index(before.personas, q);
                    assert(q(before.personas[i as int]));
                    assert forall|k: int| 0 <= k < i implies !q(#[trigger] after[k]) by {
                        assert(!q(before.personas[k]));
                    }
                    lemma_first_index_some(after, q, i as int);
                }
                Ok(copy)
            },
            None => {
                let mut text = "人格不存在: ".to_owned();
                text.append(persona_id);
                Err(MemoryError::NotFound(text))
            },
        }
    }

    /// Adds a persona under an id that is not taken.
    pub fn create(
        &mut self,
        id: String,
        name: String,
        description: String,
        system_prompt: String,
        config: PersonaConfig,
        now: i64,
    ) -> (r: Result<Persona, MemoryError>)
        ensures
            final(self).base_dir == old(self).base_dir,
            ({
                let before = old(self).registry.deep_view();
                let p = PersonaView {
                    id: id@,
                    name: name@,
                    description: description@,
                    system_prompt: system_prompt@,
                    config: config.deep_view(),
                    created_at: now,
                    last_active_at: now,
                };
                if keyed_index::<Persona>(before.personas, id@) is Some {
                    r is Err && r->Err_0.deep_view() == MemoryErrorView::Conflict(
                        "人格ID已存在: "@ + id@,
                    ) && final(self).registry == old(self).registry
                } else {
                    r is Ok && r->Ok_0.deep_view() == p && final(self).registry.deep_view()
                        == PersonaRegistryView { personas: before.personas.push(p), ..before }
                }
            }),
    {
        if find_keyed(&self.registry.personas, id.as_str()).is_some() {
            let mut text = "人格ID已存在: ".to_owned();
            text.append(id.as_str());
            return Err(MemoryError::Conflict(text));
        }
        let persona = Persona {
            id,
            name,
            description,
            system_prompt,
            config,
            created_at: now,
            last_active_at: now,
        };
        let copy = persona.replicate();
        push_one(&mut self.registry.personas, persona);
        Ok(copy)
    }

    /// Takes a persona away; neither the one that is there at first nor the
    /// active one can go.
    pub fn delete(&mut self, persona_id: &str) -> (r: Result<(), MemoryError>)
        ensures
            final(self).base_dir == old(self).base_dir,
            match deleted(old(self).registry.deep_view(), persona_id@) {
                Ok(s) => r is Ok && final(self).registry.deep_view() == s,
                Err(e) => r is Err && r->Err_0.deep_view() == e && final(self).registry
                    == old(self).registry,
            },
    {
        if same(persona_id, "default") {
            return Err(MemoryError::Conflict("不能删除默认人格".to_owned()));
        }
        if same(persona_id, self.registry.active_persona_id.as_str()) {
            return Err(MemoryError::Conflict("不能删除当前激活的人格".to_owned()));
        }
        match find_keyed(&self.registry.personas, persona_id) {
            Some(i) => {
                let ghost before = self.registry.deep_view();
                self.registry.personas.remove(i);
                assert(self.registry.personas.deep_view() =~= before.personas.remove(i as int));
                Ok(())
            },
            None => {
                let mut text = "人格不存在: ".to_owned();
                text.append(persona_id);
                Err(MemoryError::NotFound(text))
            },
        }
    }

    /// What the active persona adds to a prompt.
    pub fn build_persona_prompt(&self) -> (r: String)
        requires
            self.registry.personas@.len() > 0,
        ensures
            r@ == persona_prompt(active_persona(self.registry.deep_view())),
    {
        let p = self.active();
        if p.system_prompt.as_str().is_empty() {
            return "".to_owned();
        }
        let mut r = "[人格: ".to_owned();
        r.append(p.name.as_str());
        r.append("]\n");
        r.append(p.system_prompt.as_str());
        r.append("\n[语言: ");
        r.append(p.config.language.as_str());
        r.append(", 风格: ");
        r.append(p.config.output_style.as_str());
        r.append("]");
        r
    }

    /// After how many turns the conversation is analysed.
    pub fn analysis_interval(&self) -> (r: u32)
        requires
            self.registry.personas@.len() > 0,
        ensures
            r == active_persona(self.registry.deep_view()).config.analysis_interval,
    {
        self.active().config.analysis_interval
    }

    /// The bits of how strict evaluations are.
    pub fn eval_sensitivity(&self) -> (r: u64)
        requires
            self.registry.personas@.len() > 0,
        ensures
            r == active_persona(self.registry.deep_view()).config.eval_sensitivity,
    {
        self.active().config.eval_sensitivity
    }
}

/// A persona that was made active is the active one.
pub proof fn law_switched_persona_is_active(r: PersonaRegistryView, id: Seq<char>, now: i64)
    requires
        switched(r, id, now) is Ok,
    ensures
        switched(r, id, now)->Ok_0.active_persona_id == id,
        has_active(switched(r, id, now)->Ok_0),
        active_persona(switched(r, id, now)->Ok_0).id == id,
        active_persona(switched(r, id, now)->Ok_0).last_active_at == now,
{
    let q = crate::keyed::with_key::<Persona>(id);
    lemma_first_index(r.personas, q);
    let i = keyed_index::<Persona>(r.personas, id)->0;
    assert(q(r.personas[i]));
    let after = switched(r, id, now)->Ok_0.personas;
    assert forall|k: int| 0 <= k < i implies !q(#[trigger] after[k]) by {
        assert(!q(r.personas[k]));
    }
    lemma_first_index_some(after, q, i);
}

/// Taking a persona away leaves the active one active.
pub proof fn law_active_persona_stays(r: PersonaRegistryView, id: Seq<char>)
    requires
        has_active(r),
        deleted(r, id) is Ok,
    ensures
        has_active(deleted(r, id)->Ok_0),
        active_persona(deleted(r, id)->Ok_0) == active_persona(r),
{
    let q = crate::keyed::with_key::<Persona>(r.active_persona_id);
    let d = crate::keyed::with_key::<Persona>(id);
    lemma_first_index(r.personas, q);
    lemma_first_index(r.personas, d);
    let i = keyed_index::<Persona>(r.personas, r.active_persona_id)->0;
    let k = keyed_index::<Persona>(r.personas, id)->0;
    assert(q(r.personas[i]));
    assert(d(r.personas[k]));
    let after = r.personas.remove(k);
    let at = if k < i {
        i - 1
    } else {
        i
    };
    assert(after[at] == r.personas[i]);
    assert forall|j: int| 0 <= j < at implies !q(#[trigger] after[j]) by {
        if j < k {
            assert(after[j] == r.personas[j]);
            assert(!q(r.personas[j]));
        } else {
            assert(after[j] == r.personas[j + 1]);
            assert(!q(r.personas[j + 1]));
        }
    }
    lemma_first_index_some(after, q, at);
}

} // verus!
