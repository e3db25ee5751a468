//! Configuration values, and the patterns that are matched against them.

use crate::def::{cfg_view, opt_text};
use crate::lower::{first_leaf, last_leaf, leaf_number, leaf_text, leaf_tok, tree_span, SourceModel};
use crate::lower::{find_first_leaf, find_last_leaf, Source};
use crate::outside::{lowercase, lowercase_text, uppercase, uppercase_text};
use crate::peg::{Rule, Tree, Trees};
use crate::scope::Span;
use crate::text::{
    lemma_texts_push, parse_number, parse_uint, split, split_text, str_eq, strings_contain,
    strings_copy, strip_prefix, strip_prefix_text, texts,
};
use crate::token::Tok;
use vstd::prelude::*;

verus! {

broadcast use vstd::std_specs::vec::group_vec_axioms;

/// Configuration values, kept in memory.
#[derive(Debug, PartialEq, Eq)]
pub struct InMemoryRustCfgProvider {
    set: Vec<(String, Vec<String>)>,
    env: Vec<(String, Vec<String>)>,
    features: Vec<String>,
}

/// The values of each key, a key that was set later behind one set before.
pub type Settings = Seq<(Seq<char>, Seq<Seq<char>>)>;

/// What an [`InMemoryRustCfgProvider`] holds.
#[verifier::ext_equal]
pub struct CfgModel {
    /// What was set.
    pub set: Settings,
    /// What the environment of a build script sets, by the name behind
    /// `CARGO_CFG_`.
    pub env: Settings,
    /// The features that the environment enables.
    pub features: Seq<Seq<char>>,
}

/// A configuration in which nothing is set.
pub open spec fn empty_cfg() -> CfgModel {
    CfgModel { set: Seq::empty(), env: Seq::empty(), features: Seq::empty() }
}

/// What a list of keys and values holds.
pub open spec fn settings_view(v: Seq<(String, Vec<String>)>) -> Settings {
    Seq::new(v.len(), |i: int| (v[i].0@, texts(v[i].1@)))
}

/// The position of a key.
pub open spec fn key_at(v: Settings, key: Seq<char>, i: int) -> Option<int>
    decreases v.len() - i,
{
    if i < 0 || i >= v.len() {
        None
    } else if v[i].0 == key {
        Some(i)
    } else {
        key_at(v, key, i + 1)
    }
}

/// The values of a key.
pub open spec fn setting(v: Settings, key: Seq<char>) -> Option<Seq<Seq<char>>> {
    match key_at(v, key, 0) {
        Some(i) => Some(v[i].1),
        None => None,
    }
}

/// With the values of a key replaced, or put behind the others.
pub open spec fn with_setting(v: Settings, key: Seq<char>, values: Seq<Seq<char>>) -> Settings {
    match key_at(v, key, 0) {
        Some(i) => v.update(i, (key, values)),
        None => v.push((key, values)),
    }
}

/// The values of a key, if it is set; the environment knows it by its name in
/// upper case.
pub open spec fn cfg_values(cfg: CfgModel, key: Seq<char>) -> Option<Seq<Seq<char>>> {
    match setting(cfg.set, key) {
        Some(v) => Some(v),
        None => setting(cfg.env, uppercase_text(key)),
    }
}

/// The configuration with a key set.
pub open spec fn cfg_set(cfg: CfgModel, key: Seq<char>, values: Seq<Seq<char>>) -> CfgModel {
    CfgModel { set: with_setting(cfg.set, key, values), ..cfg }
}

/// The features with the first `n` of some more, each once.
pub open spec fn joined_features(now: Seq<Seq<char>>, more: Seq<Seq<char>>, n: nat) -> Seq<Seq<char>>
    decreases n,
{
    if n == 0 || n > more.len() {
        now
    } else {
        let front = joined_features(now, more, (n - 1) as nat);
        if front.contains(more[n - 1]) {
            front
        } else {
            front.push(more[n - 1])
        }
    }
}

/// The values of `feature` that were set.
pub open spec fn set_features(cfg: CfgModel) -> Seq<Seq<char>> {
    match setting(cfg.set, "feature"@) {
        Some(v) => v,
        None => Seq::empty(),
    }
}

/// The names of the enabled features.
pub open spec fn cfg_features(cfg: CfgModel) -> Seq<Seq<char>> {
    joined_features(set_features(cfg), cfg.features, cfg.features.len())
}

/// The pairs of one key: one for each value, or one without where it has none.
pub open spec fn key_pairs(key: Seq<char>, values: Seq<Seq<char>>) -> Seq<
    (Seq<char>, Option<Seq<char>>),
> {
    if values.len() == 0 {
        seq![(key, None)]
    } else {
        Seq::new(values.len(), |i: int| (key, Some(values[i])))
    }
}

/// The pairs of the first `n` keys that were set.
pub open spec fn set_pairs(cfg: CfgModel, n: nat) -> Seq<(Seq<char>, Option<Seq<char>>)>
    decreases n,
{
    if n == 0 || n > cfg.set.len() {
        Seq::empty()
    } else {
        let (key, values) = cfg.set[n - 1];
        set_pairs(cfg, (n - 1) as nat) + key_pairs(
            key,
            if key == "feature"@ {
                cfg_features(cfg)
            } else {
                values
            },
        )
    }
}

/// The pairs of the first `n` keys of the environment, without `feature` and
/// those that were set.
pub open spec fn env_pairs(cfg: CfgModel, n: nat) -> Seq<(Seq<char>, Option<Seq<char>>)>
    decreases n,
{
    if n == 0 || n > cfg.env.len() {
        Seq::empty()
    } else {
        let (name, values) = cfg.env[n - 1];
        let front = env_pairs(cfg, (n - 1) as nat);
        if name == "FEATURE"@ || setting(cfg.set, lowercase_text(name)) is Some {
            front
        } else {
            front + key_pairs(lowercase_text(name), values)
        }
    }
}

/// Each key with each of its values: what was set, then the environment, then
/// the features where only the environment enables some.
pub open spec fn cfg_pairs(cfg: CfgModel) -> Seq<(Seq<char>, Option<Seq<char>>)> {
    set_pairs(cfg, cfg.set.len()) + env_pairs(cfg, cfg.env.len()) + if setting(
        cfg.set,
        "feature"@,
    ) is None && cfg_features(cfg).len() > 0 {
        key_pairs("feature"@, cfg_features(cfg))
    } else {
        Seq::empty()
    }
}

/// The configuration with more features that the environment enables.
pub open spec fn with_features(cfg: CfgModel, more: Seq<Seq<char>>) -> CfgModel {
    CfgModel { features: joined_features(cfg.features, more, more.len()), ..cfg }
}

/// What an environment variable of a build script sets: `CARGO_CFG_KEY` a key,
/// `CARGO_FEATURE_NAME` a feature, whatever its value, `CARGO_CFG_FEATURE`
/// several. A value that is no text is `None`, and sets nothing.
pub open spec fn env_effect(cfg: CfgModel, name: Seq<char>, value: Option<Seq<char>>) -> CfgModel {
    match strip_prefix_text(name, "CARGO_FEATURE_"@) {
        Some(f) => with_features(cfg, seq![lowercase_text(f)]),
        None => match strip_prefix_text(name, "CARGO_CFG_"@) {
            Some(k) => match value {
                Some(v) => {
                    let values = split_text(v, ","@);
                    let cfg = CfgModel { env: with_setting(cfg.env, k, values), ..cfg };
                    if k == "FEATURE"@ {
                        with_features(cfg, values)
                    } else {
                        cfg
                    }
                },
                None => cfg,
            },
            None => cfg,
        },
    }
}

/// The configuration with what the first `n` environment variables set.
pub open spec fn env_cfg(
    cfg: CfgModel,
    vars: Seq<(Seq<char>, Option<Seq<char>>)>,
    n: nat,
) -> CfgModel
    decreases n,
{
    if n == 0 || n > vars.len() {
        cfg
    } else {
        env_effect(env_cfg(cfg, vars, (n - 1) as nat), vars[n - 1].0, vars[n - 1].1)
    }
}

/// Whether an environment variable of a build script names a feature.
pub open spec fn env_names_feature(name: Seq<char>, value: Option<Seq<char>>, f: Seq<char>) -> bool {
    match strip_prefix_text(name, "CARGO_FEATURE_"@) {
        Some(x) => lowercase_text(x) == f,
        None => match strip_prefix_text(name, "CARGO_CFG_"@) {
            Some(k) => k == "FEATURE"@ && (value matches Some(v) && split_text(v, ","@).contains(f)),
            None => false,
        },
    }
}

/// A key that was set has the values that it was set to, and no other key is
/// changed by that.
pub proof fn law_cfg_set_then_read(
    cfg: CfgModel,
    key: Seq<char>,
    values: Seq<Seq<char>>,
    other: Seq<char>,
)
    ensures
        cfg_values(cfg_set(cfg, key, values), key) == Some(values),
        other != key ==> cfg_values(cfg_set(cfg, key, values), other) == cfg_values(cfg, other),
{
    lemma_set_then_read(cfg.set, key, values, other);
}

/// A key that only the environment sets is found however its letters are
/// written, as long as they are the same in upper case.
pub proof fn law_environment_ignores_case(cfg: CfgModel, key: Seq<char>, other: Seq<char>)
    requires
        uppercase_text(key) == uppercase_text(other),
        setting(cfg.set, key) is None,
        setting(cfg.set, other) is None,
    ensures
        cfg_values(cfg, key) == cfg_values(cfg, other),
{
}

/// A variable `CARGO_CFG_NAME` sets each key that is `NAME` in upper case, unless
/// the key was set otherwise.
pub proof fn law_environment_variable_is_read(
    cfg: CfgModel,
    name: Seq<char>,
    value: Seq<char>,
    key: Seq<char>,
)
    requires
        strip_prefix_text(name, "CARGO_FEATURE_"@) is None,
        strip_prefix_text(name, "CARGO_CFG_"@) == Some(uppercase_text(key)),
        setting(cfg.set, key) is None,
    ensures
        cfg_values(env_effect(cfg, name, Some(value)), key) == Some(split_text(value, ","@)),
{
    let k = uppercase_text(key);
    lemma_set_then_read(cfg.env, k, split_text(value, ","@), k);
}

proof fn lemma_set_then_read(
    v: Settings,
    key: Seq<char>,
    values: Seq<Seq<char>>,
    other: Seq<char>,
)
    ensures
        setting(with_setting(v, key, values), key) == Some(values),
        other != key ==> setting(with_setting(v, key, values), other) == setting(v, other),
{
    let after = with_setting(v, key, values);
    lemma_key_at(v, key, 0);
    lemma_key_at(after, key, 0);
    lemma_key_at(v, other, 0);
    lemma_key_at(after, other, 0);
    match key_at(v, key, 0) {
        Some(i) => {
            assert(after[i] == (key, values));
            assert forall|j: int| 0 <= j < after.len() && j != i implies after[j] == v[j] by {}
        },
        None => {
            assert(after[v.len() as int] == (key, values));
            assert forall|j: int| 0 <= j < v.len() implies after[j] == v[j] by {}
        },
    }
}

proof fn lemma_joined_features(now: Seq<Seq<char>>, more: Seq<Seq<char>>, n: nat, f: Seq<char>)
    requires
        n <= more.len(),
    ensures
        joined_features(now, more, n).contains(f) == (now.contains(f) || more.take(
            n as int,
        ).contains(f)),
    decreases n,
{
    if n == 0 {
        assert(more.take(0) =~= Seq::empty());
    } else {
        lemma_joined_features(now, more, (n - 1) as nat, f);
        let front = joined_features(now, more, (n - 1) as nat);
        let x = more[n - 1];
        assert(more.take(n as int) =~= more.take(n - 1).push(x));
        lemma_push_contains(more.take(n - 1), x, f);
        lemma_push_contains(front, x, f);
    }
}

proof fn lemma_push_contains(v: Seq<Seq<char>>, x: Seq<char>, f: Seq<char>)
    ensures
        v.push(x).contains(f) == (v.contains(f) || x == f),
{
    if v.contains(f) {
        let i = choose|i: int| 0 <= i < v.len() && v[i] == f;
        assert(v.push(x)[i] == f);
    }
    if x == f {
        assert(v.push(x)[v.len() as int] == f);
    }
}

proof fn lemma_features(cfg: CfgModel, f: Seq<char>)
    ensures
        cfg_features(cfg).contains(f) == (set_features(cfg).contains(f) || cfg.features.contains(
            f,
        )),
{
    lemma_joined_features(set_features(cfg), cfg.features, cfg.features.len(), f);
    assert(cfg.features.take(cfg.features.len() as int) =~= cfg.features);
}

/// The environment adds the features that its variables name, in whatever
/// order they come, and takes none away.
pub proof fn law_features_of_the_environment(
    cfg: CfgModel,
    vars: Seq<(Seq<char>, Option<Seq<char>>)>,
    n: nat,
    f: Seq<char>,
)
    requires
        n <= vars.len(),
    ensures
        cfg_features(env_cfg(cfg, vars, n)).contains(f) == (cfg_features(cfg).contains(f) || exists|
            i: int,
        |
            0 <= i < n && env_names_feature((#[trigger] vars[i]).0, vars[i].1, f)),
    decreases n,
{
    lemma_env_keeps_set(cfg, vars, n);
    if n > 0 {
        law_features_of_the_environment(cfg, vars, (n - 1) as nat, f);
        let before = env_cfg(cfg, vars, (n - 1) as nat);
        let (name, value) = vars[n - 1];
        lemma_env_keeps_set(cfg, vars, (n - 1) as nat);
        lemma_features(before, f);
        lemma_features(env_cfg(cfg, vars, n), f);
        match strip_prefix_text(name, "CARGO_FEATURE_"@) {
            Some(x) => {
                let more = seq![lowercase_text(x)];
                lemma_joined_features(before.features, more, 1, f);
                assert(more.take(1) =~= more);
                assert(more[0] == lowercase_text(x));
            },
            None => if let Some(v) = value {
                let values = split_text(v, ","@);
                lemma_joined_features(before.features, values, values.len(), f);
                assert(values.take(values.len() as int) =~= values);
            },
        }
    }
}

proof fn lemma_env_keeps_set(cfg: CfgModel, vars: Seq<(Seq<char>, Option<Seq<char>>)>, n: nat)
    ensures
        env_cfg(cfg, vars, n).set == cfg.set,
    decreases n,
{
    if 0 < n <= vars.len() {
        lemma_env_keeps_set(cfg, vars, (n - 1) as nat);
    }
}

proof fn lemma_key_at(v: Settings, key: Seq<char>, i: int)
    requires
        0 <= i <= v.len(),
    ensures
        match key_at(v, key, i) {
            Some(k) => i <= k < v.len() && v[k].0 == key && forall|j: int|
                i <= j < k ==> (#[trigger] v[j]).0 != key,
            None => forall|j: int| i <= j < v.len() ==> (#[trigger] v[j]).0 != key,
        },
    decreases v.len() - i,
{
    if i < v.len() && v[i].0 != key {
        lemma_key_at(v, key, i + 1);
    }
}

fn find_key(v: &Vec<(String, Vec<String>)>, key: &str) -> (r: Option<usize>)
    ensures
        match key_at(settings_view(v@), key@, 0) {
            Some(i) => (r matches Some(k) && k == i) && 0 <= i < v@.len(),
            None => r is None,
        },
{
    let mut i: usize = 0;
    while i < v.len()
        invariant
            i <= v.len(),
            key_at(settings_view(v@), key@, i as int) == key_at(settings_view(v@), key@, 0),
        decreases v.len() - i,
    {
        if str_eq(v[i].0.as_str(), key) {
            return Some(i);
        }
        i += 1;
    }
    None
}

fn read_key(v: &Vec<(String, Vec<String>)>, key: &str) -> (r: Option<Vec<String>>)
    ensures
        match setting(settings_view(v@), key@) {
            Some(x) => r is Some && texts(r->0@) == x,
            None => r is None,
        },
{
    match find_key(v, key) {
        Some(i) => Some(strings_copy(&v[i].1)),
        None => None,
    }
}

fn set_key(v: &mut Vec<(String, Vec<String>)>, key: &str, values: Vec<String>)
    ensures
        settings_view(final(v)@) == with_setting(settings_view(old(v)@), key@, texts(values@)),
{
    let ghost before = settings_view(v@);
    let entry = (String::from_str(key), values);
    match find_key(v, key) {
        Some(i) => {
            v.set(i, entry);
            proof {
                assert(settings_view(v@) =~= before.update(i as int, (key@, texts(values@))));
            }
        },
        None => {
            v.push(entry);
            proof {
                assert(settings_view(v@) =~= before.push((key@, texts(values@))));
            }
        },
    }
}

fn join_features(now: &mut Vec<String>, more: &Vec<String>)
    ensures
        texts(final(now)@) == joined_features(texts(old(now)@), texts(more@), more@.len()),
{
    let ghost before = texts(now@);
    let mut i: usize = 0;
    while i < more.len()
        invariant
            i <= more.len(),
            texts(now@) == joined_features(before, texts(more@), i as nat),
        decreases more.len() - i,
    {
        proof {
            assert(texts(more@)[i as int] == more@[i as int]@);
        }
        if !strings_contain(now, more[i].as_str()) {
            let feature = more[i].clone();
            proof {
                lemma_texts_push(now@, feature);
            }
            now.push(feature);
        }
        i += 1;
    }
}

fn push_pairs(out: &mut Vec<(String, Option<String>)>, key: &String, values: &Vec<String>)
    ensures
        cfg_view(final(out)@) == cfg_view(old(out)@) + key_pairs(key@, texts(values@)),
{
    let ghost front = cfg_view(out@);
    let ghost all = key_pairs(key@, texts(values@));
    proof {
        assert(texts(values@).len() == values@.len());
    }
    if values.len() == 0 {
        let pair = (key.clone(), None);
        proof {
            assert(cfg_view(out@.push(pair)) =~= front + seq![(key@, None)]);
        }
        out.push(pair);
        return;
    }
    let mut i: usize = 0;
    proof {
        assert(front + all.take(0) =~= front);
    }
    while i < values.len()
        invariant
            i <= values.len(),
            values@.len() > 0,
            all == key_pairs(key@, texts(values@)),
            all.len() == values@.len(),
            cfg_view(out@) == front + all.take(i as int),
        decreases values.len() - i,
    {
        let pair = (key.clone(), Some(values[i].clone()));
        proof {
            assert(all[i as int] == (key@, Some(values@[i as int]@)));
            assert(cfg_view(out@.push(pair)) =~= cfg_view(out@).push(all[i as int]));
            assert((front + all.take(i as int)).push(all[i as int]) =~= front + all.take(i + 1));
        }
        out.push(pair);
        i += 1;
    }
    proof {
        assert(all.take(i as int) =~= all);
    }
}

impl InMemoryRustCfgProvider {
    pub closed spec fn view(&self) -> CfgModel {
        CfgModel {
            set: settings_view(self.set@),
            env: settings_view(self.env@),
            features: texts(self.features@),
        }
    }

    /// A configuration in which nothing is set.
    pub fn new() -> (r: InMemoryRustCfgProvider)
        ensures
            r@ == empty_cfg(),
    {
        let r = InMemoryRustCfgProvider {
            set: Vec::new(),
            env: Vec::new(),
            features: Vec::new(),
        };
        proof {
            assert(r@ =~= empty_cfg());
        }
        r
    }

    /// Sets a key.
    pub fn with_value(self, key: &str, values: Vec<String>) -> (r: InMemoryRustCfgProvider)
        ensures
            r@ == cfg_set(self@, key@, texts(values@)),
    {
        let InMemoryRustCfgProvider { set, env, features } = self;
        let mut set = set;
        set_key(&mut set, key, values);
        InMemoryRustCfgProvider { set, env, features }
    }

    /// The values of a key, if it is set.
    pub fn get_cfg(&self, key: &str) -> (r: Option<Vec<String>>)
        ensures
            match cfg_values(self@, key@) {
                Some(v) => r is Some && texts(r->0@) == v,
                None => r is None,
            },
    {
        let r = read_key(&self.set, key);
        if r.is_some() {
            return r;
        }
        read_key(&self.env, uppercase(key).as_str())
    }

    /// The names of the enabled features.
    pub fn get_features(&self) -> (r: Vec<String>)
        ensures
            texts(r@) == cfg_features(self@),
    {
        let mut r = match read_key(&self.set, "feature") {
            Some(v) => v,
            None => Vec::new(),
        };
        proof {
            if setting(self@.set, "feature"@) is None {
                assert(texts(r@) =~= Seq::empty());
            }
            assert(texts(self.features@).len() == self.features@.len());
        }
        join_features(&mut r, &self.features);
        r
    }

    /// Each key with each of its values.
    pub fn get_cfg_pairs(&self) -> (r: Vec<(String, Option<String>)>)
        ensures
            cfg_view(r@) == cfg_pairs(self@),
    {
        let features = self.get_features();
        let mut r: Vec<(String, Option<String>)> = Vec::new();
        let mut i: usize = 0;
        proof {
            assert(cfg_view(r@) =~= Seq::empty());
        }
        while i < self.set.len()
            invariant
                i <= self.set.len(),
                texts(features@) == cfg_features(self@),
                cfg_view(r@) == set_pairs(self@, i as nat),
            decreases self.set.len() - i,
        {
            proof {
                assert(self@.set[i as int] == (self.set@[i as int].0@, texts(
                    self.set@[i as int].1@,
                )));
            }
            if str_eq(self.set[i].0.as_str(), "feature") {
                push_pairs(&mut r, &self.set[i].0, &features);
            } else {
                push_pairs(&mut r, &self.set[i].0, &self.set[i].1);
            }
            i += 1;
        }
        let ghost front = cfg_view(r@);
        let mut i: usize = 0;
        proof {
            assert(front + Seq::<(Seq<char>, Option<Seq<char>>)>::empty() =~= front);
        }
        while i < self.env.len()
            invariant
                i <= self.env.len(),
                cfg_view(r@) == front + env_pairs(self@, i as nat),
            decreases self.env.len() - i,
        {
            let ghost before = env_pairs(self@, i as nat);
            proof {
                assert(self@.env[i as int] == (self.env@[i as int].0@, texts(
                    self.env@[i as int].1@,
                )));
            }
            let key = lowercase(self.env[i].0.as_str());
            if !str_eq(self.env[i].0.as_str(), "FEATURE") && find_key(
                &self.set,
                key.as_str(),
            ).is_none() {
                push_pairs(&mut r, &key, &self.env[i].1);
                proof {
                    let more = key_pairs(key@, texts(self.env@[i as int].1@));
                    assert(front + before + more =~= front + (before + more));
                }
            }
            i += 1;
        }
        proof {
            assert(texts(features@).len() == features@.len());
        }
        if find_key(&self.set, "feature").is_none() && features.len() > 0 {
            push_pairs(&mut r, &String::from_str("feature"), &features);
        } else {
            proof {
                assert(cfg_view(r@) + Seq::<(Seq<char>, Option<Seq<char>>)>::empty()
                    =~= cfg_view(r@));
            }
        }
        r
    }

    /// Adds the configuration that the environment of a build script sets.
    /// A value that is no text is `None`.
    pub fn load_from_cargo_env(self, vars: &Vec<(String, Option<String>)>) -> (r:
        InMemoryRustCfgProvider)
        ensures
            r@ == env_cfg(self@, cfg_view(vars@), vars@.len()),
    {
        let ghost before = self@;
        let mut r = self;
        let mut i: usize = 0;
        while i < vars.len()
            invariant
                i <= vars.len(),
                r@ == env_cfg(before, cfg_view(vars@), i as nat),
            decreases vars.len() - i,
        {
            proof {
                assert(cfg_view(vars@)[i as int] == (
                    vars@[i as int].0@,
                    opt_text(vars@[i as int].1),
                ));
            }
            match strip_prefix(vars[i].0.as_str(), "CARGO_FEATURE_") {
                Some(f) => {
                    let mut more: Vec<String> = Vec::new();
                    more.push(lowercase(f.as_str()));
                    proof {
                        assert(texts(more@) =~= seq![lowercase_text(f@)]);
                    }
                    join_features(&mut r.features, &more);
                },
                None => match strip_prefix(vars[i].0.as_str(), "CARGO_CFG_") {
                    Some(k) => if let Some(value) = &vars[i].1 {
                        proof {
                            reveal_strlit(",");
                        }
                        let values = split(value.as_str(), ",");
                        proof {
                            assert(texts(values@).len() == values@.len());
                        }
                        if str_eq(k.as_str(), "FEATURE") {
                            join_features(&mut r.features, &values);
                        }
                        set_key(&mut r.env, k.as_str(), values);
                    },
                    None => {},
                },
            }
            i += 1;
        }
        r
    }
}

/// What a condition looks at.
#[derive(Debug, PartialEq, Eq)]
pub enum CfgValue {
    /// The key is not set.
    Empty,
    /// The key is set.
    Present,
    /// The key is set to these values.
    Values(Vec<String>),
}

/// What a [`CfgValue`] holds.
#[verifier::ext_equal]
pub enum CfgValueModel {
    Empty,
    Present,
    Values(Seq<Seq<char>>),
}

impl CfgValue {
    pub open spec fn view(&self) -> CfgValueModel {
        match self {
            CfgValue::Empty => CfgValueModel::Empty,
            CfgValue::Present => CfgValueModel::Present,
            CfgValue::Values(v) => CfgValueModel::Values(texts(v@)),
        }
    }
}

/// What a list of [`CfgValue`] holds.
pub open spec fn values_view(v: Seq<CfgValue>) -> Seq<CfgValueModel> {
    Seq::new(v.len(), |i: int| v[i].view())
}

/// What `cfg!(key)` or, where `item` is given, `cfg!(key.item)` looks at.
pub open spec fn scrutinee(cfg: CfgModel, key: Seq<char>, item: Option<Seq<char>>) -> CfgValueModel {
    match item {
        Some(x) => match if key == "feature"@ {
            Some(cfg_features(cfg))
        } else {
            cfg_values(cfg, key)
        } {
            Some(v) => if v.contains(x) {
                CfgValueModel::Present
            } else {
                CfgValueModel::Empty
            },
            None => CfgValueModel::Empty,
        },
        None => if key == "feature"@ {
            CfgValueModel::Values(cfg_features(cfg))
        } else {
            match cfg_values(cfg, key) {
                Some(v) => if v.len() == 0 {
                    CfgValueModel::Present
                } else {
                    CfgValueModel::Values(v)
                },
                None => CfgValueModel::Empty,
            }
        },
    }
}

/// What the key below a node looks at.
pub open spec fn key_scrutinee(t: Tree, src: SourceModel, cfg: CfgModel) -> CfgValueModel {
    match t {
        Tree::Node(_, _, _, k) => {
            let a = first_leaf(*k);
            let b = last_leaf(*k);
            scrutinee(
                cfg,
                leaf_text(src, a),
                if a == b {
                    None
                } else {
                    Some(leaf_text(src, b))
                },
            )
        },
        _ => CfgValueModel::Empty,
    }
}

/// Whether one of the values is the number `n`.
pub open spec fn has_number(values: Seq<Seq<char>>, n: usize) -> bool {
    exists|i: int|
        0 <= i < values.len() && parse_uint(#[trigger] values[i], usize::MAX as nat) == Some(
            n as nat,
        )
}

/// Whether a string or a number is among the values.
pub open spec fn literal_matches(i: usize, src: SourceModel, v: CfgValueModel) -> bool {
    match v {
        CfgValueModel::Values(values) => if leaf_tok(src, i) == Some(Tok::Number) {
            has_number(values, leaf_number(src, i))
        } else {
            values.contains(leaf_text(src, i))
        },
        _ => false,
    }
}

/// Whether a value matches a pattern.
pub open spec fn value_matches(t: Tree, src: SourceModel, v: CfgValueModel) -> bool
    decreases t,
{
    match t {
        Tree::Leaf(_) => false,
        Tree::Node(q, _, _, k) => match q {
            Rule::OrPattern => any_matches(*k, src, v),
            Rule::AndPattern => all_match(*k, src, v),
            Rule::PatternGroup => all_match(*k, src, v),
            Rule::NotPattern => !all_match(*k, src, v),
            Rule::PatternLiteral => literal_matches(first_leaf(*k), src, v),
            Rule::PatternAny => true,
            Rule::PatternSome => !(v is Empty),
            Rule::PatternNone => v is Empty,
            _ => false,
        },
    }
}

/// Whether a value matches one of the patterns.
pub open spec fn any_matches(ts: Trees, src: SourceModel, v: CfgValueModel) -> bool
    decreases ts,
{
    match ts {
        Trees::Nil => false,
        Trees::Snoc(rest, x) => any_matches(*rest, src, v) || value_matches(*x, src, v),
    }
}

/// Whether a value matches all patterns.
pub open spec fn all_match(ts: Trees, src: SourceModel, v: CfgValueModel) -> bool
    decreases ts,
{
    match ts {
        Trees::Nil => true,
        Trees::Snoc(rest, x) => all_match(*rest, src, v) && value_matches(*x, src, v),
    }
}

/// The number of the trees.
pub open spec fn count(ts: Trees) -> nat
    decreases ts,
{
    match ts {
        Trees::Nil => 0,
        Trees::Snoc(rest, _) => count(*rest) + 1,
    }
}

/// Whether each of the first values matches the pattern in its place.
pub open spec fn each_matches(ts: Trees, src: SourceModel, values: Seq<CfgValueModel>) -> bool
    decreases ts,
{
    match ts {
        Trees::Nil => true,
        Trees::Snoc(rest, x) => each_matches(*rest, src, values) && value_matches(
            *x,
            src,
            values[count(*rest) as int],
        ),
    }
}

/// A pattern without the rules that it is the only one below.
pub open spec fn pattern_core(t: Tree) -> Tree
    decreases t,
{
    match t {
        Tree::Node(q, _, _, k) => if q == Rule::OrPattern || q == Rule::AndPattern {
            match *k {
                Trees::Snoc(rest, x) => if *rest is Nil {
                    pattern_core(*x)
                } else {
                    t
                },
                _ => t,
            }
        } else {
            t
        },
        _ => t,
    }
}

/// Whether a pattern is a single one: a literal, `_`, `Some` or `None`.
pub open spec fn is_single(t: Tree) -> bool {
    t matches Tree::Node(q, _, _, _) && (q == Rule::PatternLiteral || q == Rule::PatternAny || q
        == Rule::PatternSome || q == Rule::PatternNone)
}

/// What a `#match` looks at: one value or several.
pub enum Scrutinees {
    Single(CfgValue),
    Tuple(Vec<CfgValue>),
}

/// What [`Scrutinees`] holds.
#[verifier::ext_equal]
pub enum ScrutineesModel {
    Single(CfgValueModel),
    Tuple(Seq<CfgValueModel>),
}

impl Scrutinees {
    pub open spec fn view(&self) -> ScrutineesModel {
        match self {
            Scrutinees::Single(v) => ScrutineesModel::Single(v.view()),
            Scrutinees::Tuple(v) => ScrutineesModel::Tuple(values_view(v@)),
        }
    }
}

/// Something that is said of a place in the source.
#[derive(Debug, PartialEq, Eq)]
pub struct Remark {
    pub message: String,
    pub span: Span,
}

/// What a [`Remark`] holds.
#[verifier::ext_equal]
pub struct RemarkModel {
    pub message: Seq<char>,
    pub span: Span,
}

impl Remark {
    pub open spec fn view(&self) -> RemarkModel {
        RemarkModel { message: self.message@, span: self.span }
    }
}

/// What an optional [`Remark`] holds.
pub open spec fn opt_remark(r: Option<Remark>) -> Option<RemarkModel> {
    match r {
        Some(x) => Some(x.view()),
        None => None,
    }
}

/// Whether what is looked at matches a pattern, and what is wrong where the
/// two do not fit.
pub open spec fn pattern_matches(t: Tree, src: SourceModel, s: ScrutineesModel) -> (
    bool,
    Option<RemarkModel>,
) {
    match t {
        Tree::Node(q, _, _, k) => if q == Rule::TuplePattern {
            match s {
                ScrutineesModel::Single(v) => if count(*k) == 1 {
                    (all_match(*k, src, v), None)
                } else {
                    (
                        false,
                        Some(
                            RemarkModel {
                                message: "Can not match tuple pattern against a single cfg value."@,
                                span: tree_span(src, t),
                            },
                        ),
                    )
                },
                ScrutineesModel::Tuple(values) => if count(*k) != values.len() {
                    (
                        false,
                        Some(
                            RemarkModel {
                                message: "Number of patterns and number of scrutinees do not match."@,
                                span: tree_span(src, t),
                            },
                        ),
                    )
                } else {
                    (each_matches(*k, src, values), None)
                },
            }
        } else {
            match s {
                ScrutineesModel::Single(v) => (value_matches(t, src, v), None),
                ScrutineesModel::Tuple(values) => {
                    let core = pattern_core(t);
                    if is_single(core) && values.len() == 1 {
                        (value_matches(core, src, values[0]), None)
                    } else if core matches Tree::Node(c, _, _, _) && c == Rule::PatternAny {
                        (true, None)
                    } else {
                        (
                            false,
                            Some(
                                RemarkModel {
                                    message: "Can not match single pattern against multiple cfg values."@,
                                    span: tree_span(src, t),
                                },
                            ),
                        )
                    }
                },
            }
        },
        _ => (false, None),
    }
}

/// What `cfg!(key)` or `cfg!(key.item)` looks at.
fn find_scrutinee(cfg: &InMemoryRustCfgProvider, key: &String, item: Option<String>) -> (r: CfgValue)
    ensures
        r@ == scrutinee(cfg@, key@, opt_text(item)),
{
    match item {
        Some(x) => {
            let values = if str_eq(key.as_str(), "feature") {
                Some(cfg.get_features())
            } else {
                cfg.get_cfg(key.as_str())
            };
            match values {
                Some(v) => if strings_contain(&v, x.as_str()) {
                    CfgValue::Present
                } else {
                    CfgValue::Empty
                },
                None => CfgValue::Empty,
            }
        },
        None => if str_eq(key.as_str(), "feature") {
            CfgValue::Values(cfg.get_features())
        } else {
            match cfg.get_cfg(key.as_str()) {
                Some(v) => {
                    proof {
                        assert(texts(v@).len() == v@.len());
                    }
                    if v.len() == 0 {
                        CfgValue::Present
                    } else {
                        CfgValue::Values(v)
                    }
                },
                None => CfgValue::Empty,
            }
        },
    }
}

/// What the key below a node looks at.
pub fn lower_scrutinee(t: &Tree, src: &Source, cfg: &InMemoryRustCfgProvider) -> (r: CfgValue)
    ensures
        r@ == key_scrutinee(*t, src@, cfg@),
{
    match t {
        Tree::Node(_, _, _, k) => {
            let a = find_first_leaf(k);
            let b = find_last_leaf(k);
            let key = src.text_at(a);
            let item = if a == b {
                None
            } else {
                Some(src.text_at(b))
            };
            find_scrutinee(cfg, &key, item)
        },
        _ => CfgValue::Empty,
    }
}

fn contains_number(values: &Vec<String>, n: usize) -> (r: bool)
    ensures
        r == has_number(texts(values@), n),
{
    let mut i: usize = 0;
    while i < values.len()
        invariant
            i <= values.len(),
            forall|k: int|
                0 <= k < i ==> parse_uint(#[trigger] texts(values@)[k], usize::MAX as nat) != Some(
                    n as nat,
                ),
        decreases values.len() - i,
    {
        proof {
            assert(texts(values@)[i as int] == values@[i as int]@);
        }
        if let Some(m) = parse_number(values[i].as_str(), usize::MAX) {
            if m == n {
                return true;
            }
        }
        i += 1;
    }
    false
}

fn literal_fits(i: usize, src: &Source, v: &CfgValue) -> (r: bool)
    ensures
        r == literal_matches(i, src@, v@),
{
    match v {
        CfgValue::Values(values) => {
            let is_number = match src.tok_at(i) {
                Some(t) => t == Tok::Number,
                None => false,
            };
            if is_number {
                contains_number(values, src.number_at(i))
            } else {
                strings_contain(values, src.text_at(i).as_str())
            }
        },
        _ => false,
    }
}

fn value_fits(t: &Tree, src: &Source, v: &CfgValue) -> (r: bool)
    ensures
        r == value_matches(*t, src@, v@),
    decreases t,
{
    match t {
        Tree::Leaf(_) => false,
        Tree::Node(q, _, _, k) => match q {
            Rule::OrPattern => any_fits(k, src, v),
            Rule::AndPattern => all_fit(k, src, v),
            Rule::PatternGroup => all_fit(k, src, v),
            Rule::NotPattern => !all_fit(k, src, v),
            Rule::PatternLiteral => literal_fits(find_first_leaf(k), src, v),
            Rule::PatternAny => true,
            Rule::PatternSome => match v {
                CfgValue::Empty => false,
                _ => true,
            },
            Rule::PatternNone => match v {
                CfgValue::Empty => true,
                _ => false,
            },
            _ => false,
        },
    }
}

fn any_fits(ts: &Trees, src: &Source, v: &CfgValue) -> (r: bool)
    ensures
        r == any_matches(*ts, src@, v@),
    decreases ts,
{
    match ts {
        Trees::Nil => false,
        Trees::Snoc(rest, x) => any_fits(rest, src, v) || value_fits(x, src, v),
    }
}

fn all_fit(ts: &Trees, src: &Source, v: &CfgValue) -> (r: bool)
    ensures
        r == all_match(*ts, src@, v@),
    decreases ts,
{
    match ts {
        Trees::Nil => true,
        Trees::Snoc(rest, x) => all_fit(rest, src, v) && value_fits(x, src, v),
    }
}

/// The number of the trees, where it is at most `max`.
fn count_up_to(ts: &Trees, max: usize) -> (r: Option<usize>)
    ensures
        match r {
            Some(n) => n == count(*ts) && n <= max,
            None => count(*ts) > max,
        },
    decreases ts,
{
    match ts {
        Trees::Nil => Some(0),
        Trees::Snoc(rest, _) => match count_up_to(rest, max) {
            Some(n) => if n < max {
                Some(n + 1)
            } else {
                None
            },
            None => None,
        },
    }
}

fn each_fits(ts: &Trees, src: &Source, values: &Vec<CfgValue>) -> (r: bool)
    requires
        count(*ts) <= values@.len(),
    ensures
        r == each_matches(*ts, src@, values_view(values@)),
    decreases ts,
{
    match ts {
        Trees::Nil => true,
        Trees::Snoc(rest, x) => {
            if !each_fits(rest, src, values) {
                return false;
            }
            match count_up_to(rest, values.len()) {
                Some(n) => value_fits(x, src, &values[n]),
                None => false,
            }
        },
    }
}

fn core_of(t: &Tree) -> (r: &Tree)
    ensures
        *r == pattern_core(*t),
    decreases t,
{
    match t {
        Tree::Node(q, _, _, k) => {
            if *q == Rule::OrPattern || *q == Rule::AndPattern {
                match &**k {
                    Trees::Snoc(rest, x) => match &**rest {
                        Trees::Nil => core_of(x),
                        _ => t,
                    },
                    _ => t,
                }
            } else {
                t
            }
        },
        _ => t,
    }
}

fn remark(message: &str, span: Span) -> (r: Remark)
    ensures
        r@ == (RemarkModel { message: message@, span }),
{
    Remark { message: String::from_str(message), span }
}

/// Whether what is looked at matches a pattern, and what is wrong where the
/// two do not fit.
pub fn pattern_fits(t: &Tree, src: &Source, s: &Scrutinees) -> (r: (bool, Option<Remark>))
    ensures
        (r.0, opt_remark(r.1)) == pattern_matches(*t, src@, s@),
{
    match t {
        Tree::Node(q, _, _, k) => {
            if *q == Rule::TuplePattern {
                match s {
                    Scrutinees::Single(v) => match count_up_to(k, 1) {
                        Some(1) => (all_fit(k, src, v), None),
                        _ => (
                            false,
                            Some(
                                remark(
                                    "Can not match tuple pattern against a single cfg value.",
                                    src.span_of_tree(t),
                                ),
                            ),
                        ),
                    },
                    Scrutinees::Tuple(values) => {
                        let fits = match count_up_to(k, values.len()) {
                            Some(n) => n == values.len(),
                            None => false,
                        };
                        if !fits {
                            (
                                false,
                                Some(
                                    remark(
                                        "Number of patterns and number of scrutinees do not match.",
                                        src.span_of_tree(t),
                                    ),
                                ),
                            )
                        } else {
                            (each_fits(k, src, values), None)
                        }
                    },
                }
            } else {
                match s {
                    Scrutinees::Single(v) => (value_fits(t, src, v), None),
                    Scrutinees::Tuple(values) => {
                        let core = core_of(t);
                        let (single, any) = match core {
                            Tree::Node(c, _, _, _) => (
                                *c == Rule::PatternLiteral || *c == Rule::PatternAny || *c
                                    == Rule::PatternSome || *c == Rule::PatternNone,
                                *c == Rule::PatternAny,
                            ),
                            _ => (false, false),
                        };
                        if single && values.len() == 1 {
                            (value_fits(core, src, &values[0]), None)
                        } else if any {
                            (true, None)
                        } else {
                            (
                                false,
                                Some(
                                    remark(
                                        "Can not match single pattern against multiple cfg values.",
                                        src.span_of_tree(t),
                                    ),
                                ),
                            )
                        }
                    },
                }
            }
        },
        _ => (false, None),
    }
}

} // verus!
