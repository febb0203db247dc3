//! The gateway's configuration: its defaults, `${VAR}` expansion, checks,
//! the router it describes, and the masked form that is shown.

use vstd::prelude::*;
use vstd::utf8::encode_utf8;
use crate::codec::{
    CodecError, ConfigurableRouter, ProviderConfig, RouteInfo, RouteResult, RouteRule, first_key_from,
    first_rule_from, route_outcome, rule_matches,
};
use crate::json::{nat_text, text_of_nat};
use crate::text::{chars_of, concat, push_char, str_eq};
use crate::types::Protocol;

verus! {

/// A provider as the configuration file describes it.
#[derive(Debug, Clone)]
pub struct ProviderDef {
    pub protocol: String,
    pub base_url: String,
    pub api_key: String,
    pub headers: Vec<(String, String)>,
    pub model_mapping: Vec<(String, String)>,
}

/// A route as the configuration file describes it.
#[derive(Debug, Clone)]
pub struct RouteDef {
    pub models: Vec<String>,
    pub protocol: Option<String>,
    pub stream: Option<bool>,
    pub has_tools: Option<bool>,
    pub has_media: Option<bool>,
    pub provider: String,
}

/// The gateway's configuration.
#[derive(Debug, Clone)]
pub struct Config {
    pub host: String,
    pub port: u16,
    pub log_level: String,
    pub drain_timeout_secs: u64,
    pub api_keys: Vec<String>,
    pub providers: Vec<(String, ProviderDef)>,
    pub routes: Vec<RouteDef>,
}

/// The address the gateway listens on when none is configured.
pub fn default_host() -> (r: String)
    ensures
        r@ == "127.0.0.1"@,
{
    "127.0.0.1".to_string()
}

/// The port the gateway listens on when none is configured.
pub fn default_port() -> (r: u16)
    ensures
        r == 8080,
{
    8080
}

/// The log level when none is configured.
pub fn default_log_level() -> (r: String)
    ensures
        r@ == "info"@,
{
    "info".to_string()
}

/// How long, in seconds, requests may drain at shutdown when nothing is
/// configured.
pub fn default_drain_timeout() -> (r: u64)
    ensures
        r == 30,
{
    30
}

// ---------------------------------------------------------------------------
// ${VAR} expansion
// ---------------------------------------------------------------------------

/// The value of the variable `name` in `env`: the first entry with that
/// name, or the empty string.
pub open spec fn env_lookup(env: Seq<(String, String)>, name: Seq<char>) -> Seq<char>
    decreases env.len(),
{
    if env.len() == 0 {
        Seq::empty()
    } else if env[0].0@ == name {
        env[0].1@
    } else {
        env_lookup(env.drop_first(), name)
    }
}

/// The position of the first `}` in `s`, or its length when there is none.
pub open spec fn close_brace(s: Seq<char>) -> nat
    decreases s.len(),
{
    if s.len() == 0 {
        0
    } else if s[0] == '}' {
        0
    } else {
        1 + close_brace(s.drop_first())
    }
}

/// `s` with every `${NAME}` replaced by the value of `NAME` in `env` (the
/// empty string for an unknown name); a `${` that is never closed takes the
/// rest of the text as the name.
pub open spec fn expand(s: Seq<char>, env: Seq<(String, String)>) -> Seq<char>
    decreases s.len(),
{
    if s.len() == 0 {
        Seq::empty()
    } else if s.len() >= 2 && s[0] == '$' && s[1] == '{' {
        let rest = s.skip(2);
        let k = close_brace(rest);
        if k < rest.len() {
            env_lookup(env, rest.take(k as int)) + expand(rest.skip(k + 1 as int), env)
        } else {
            env_lookup(env, rest)
        }
    } else {
        seq![s[0]] + expand(s.skip(1), env)
    }
}

proof fn lemma_close_brace(s: Seq<char>)
    ensures
        close_brace(s) <= s.len(),
        close_brace(s) < s.len() ==> s[close_brace(s) as int] == '}',
        forall|j: int| 0 <= j < close_brace(s) ==> s[j] != '}',
    decreases s.len(),
{
    if s.len() > 0 && s[0] != '}' {
        lemma_close_brace(s.drop_first());
        assert forall|j: int| 0 <= j < close_brace(s) implies s[j] != '}' by {
            if j > 0 {
                assert(s[j] == s.drop_first()[j - 1]);
            }
        }
    }
}

fn lookup_env(env: &Vec<(String, String)>, name: &str) -> (r: String)
    ensures
        r@ == env_lookup(env@, name@),
{
    let mut i: usize = 0;
    assert(env@.skip(0) =~= env@);
    while i < env.len()
        invariant
            i <= env@.len(),
            env_lookup(env@, name@) == env_lookup(env@.skip(i as int), name@),
        decreases env.len() - i,
    {
        assert(env@.skip(i as int).drop_first() =~= env@.skip(i + 1));
        assert(env@.skip(i as int)[0] == env@[i as int]);
        if str_eq(env[i].0.as_str(), name) {
            return env[i].1.clone();
        }
        i = i + 1;
    }
    String::new()
}

/// `s` with every `${NAME}` replaced by the value of `NAME` in `env` (see
/// [`expand`]); the caller hands in the process environment.
pub fn expand_env(s: &str, env: &Vec<(String, String)>) -> (r: String)
    ensures
        r@ == expand(s@, env@),
{
    let cs = chars_of(s);
    let ghost all = cs@;
    let mut out = String::new();
    let mut i: usize = 0;
    assert(all.skip(0) =~= all);
    while i < cs.len()
        invariant
            i <= cs@.len(),
            all == cs@,
            out@ + expand(all.skip(i as int), env@) == expand(all, env@),
        decreases cs.len() - i,
    {
        let ghost rest0 = all.skip(i as int);
        if cs[i] == '$' && i + 1 < cs.len() && cs[i + 1] == '{' {
            let mut j: usize = i + 2;
            let ghost rest = all.skip(i + 2);
            assert(rest0.skip(2) =~= rest);
            proof {
                lemma_close_brace(rest);
            }
            let mut name = String::new();
            while j < cs.len() && cs[j] != '}'
                invariant
                    i + 2 <= j <= cs@.len(),
                    all == cs@,
                    rest == all.skip(i + 2),
                    name@ == all.subrange(i + 2, j as int),
                    forall|q: int| i + 2 <= q < j ==> all[q] != '}',
                decreases cs.len() - j,
            {
                push_char(&mut name, cs[j]);
                assert(name@ =~= all.subrange(i + 2, j + 1));
                j = j + 1;
            }
            let ghost k = close_brace(rest);
            assert(k == j - (i + 2)) by {
                if k < j - (i + 2) {
                    assert(rest[k as int] == all[i + 2 + k]);
                }
                if k > j - (i + 2) {
                    assert(rest[j - (i + 2)] == all[j as int]);
                }
            }
            let value = lookup_env(env, name.as_str());
            out.append(value.as_str());
            if j < cs.len() {
                assert(rest.take(k as int) =~= name@);
                assert(rest.skip(k + 1 as int) =~= all.skip(j + 1));
                i = j + 1;
            } else {
                assert(rest =~= name@);
                assert(all.skip(j as int) =~= Seq::<char>::empty());
                i = j;
            }
        } else {
            push_char(&mut out, cs[i]);
            assert(rest0.skip(1) =~= all.skip(i + 1));
            i = i + 1;
        }
    }
    assert(all.skip(i as int) =~= Seq::<char>::empty());
    out
}

/// Whether `s` holds no `${`.
pub open spec fn no_placeholder(s: Seq<char>) -> bool {
    forall|i: int| 0 <= i < s.len() - 1 ==> !(#[trigger] s[i] == '$' && s[i + 1] == '{')
}

/// Text without `${` comes out of the expansion unchanged, whatever the
/// environment.
pub proof fn law_expand_without_placeholder(s: Seq<char>, env: Seq<(String, String)>)
    requires
        no_placeholder(s),
    ensures
        expand(s, env) == s,
    decreases s.len(),
{
    if s.len() > 0 {
        assert(no_placeholder(s.skip(1))) by {
            assert forall|i: int| 0 <= i < s.skip(1).len() - 1 implies !(#[trigger] s.skip(1)[i] == '$'
                && s.skip(1)[i + 1] == '{') by {
                assert(s.skip(1)[i] == s[i + 1]);
                assert(s.skip(1)[i + 1] == s[i + 2]);
            }
        }
        law_expand_without_placeholder(s.skip(1), env);
        assert(seq![s[0]] + s.skip(1) =~= s);
    }
}

// ---------------------------------------------------------------------------
// Protocols, checks and the router
// ---------------------------------------------------------------------------

/// The protocol a configuration name stands for.
pub open spec fn protocol_named(s: Seq<char>) -> Option<Protocol> {
    if s == "openai-chat"@ {
        Some(Protocol::OpenAiChat)
    } else if s == "openai-responses"@ {
        Some(Protocol::OpenAiResponses)
    } else if s == "anthropic"@ {
        Some(Protocol::Anthropic)
    } else {
        None
    }
}

/// The error for a protocol name that is none of the known ones.
pub open spec fn unknown_protocol_text(s: Seq<char>) -> Seq<char> {
    "unknown protocol: "@ + s
}

/// The protocol a configuration name stands for, or the error.
pub fn parse_protocol(s: &str) -> (r: Result<Protocol, String>)
    ensures
        match protocol_named(s@) {
            Some(p) => r == Ok::<Protocol, String>(p),
            None => r matches Err(m) && m@ == unknown_protocol_text(s@),
        },
{
    if str_eq(s, "openai-chat") {
        Ok(Protocol::OpenAiChat)
    } else if str_eq(s, "openai-responses") {
        Ok(Protocol::OpenAiResponses)
    } else if str_eq(s, "anthropic") {
        Ok(Protocol::Anthropic)
    } else {
        Err(concat("unknown protocol: ", s))
    }
}

/// The first provider from position `i` on whose protocol is unknown.
pub open spec fn first_bad_provider(ps: Seq<(String, ProviderDef)>, i: nat) -> Option<nat>
    decreases ps.len() - i,
{
    if i >= ps.len() {
        None
    } else if protocol_named(ps[i as int].1.protocol@) is None {
        Some(i)
    } else {
        first_bad_provider(ps, i + 1)
    }
}

/// Whether a provider is named `name`.
pub open spec fn provider_named(ps: Seq<(String, ProviderDef)>, name: Seq<char>) -> bool {
    exists|i: int| 0 <= i < ps.len() && (#[trigger] ps[i]).0@ == name
}

/// The first route from position `i` on whose provider is not configured.
pub open spec fn first_orphan_route(c: Config, i: nat) -> Option<nat>
    decreases c.routes@.len() - i,
{
    if i >= c.routes@.len() {
        None
    } else if !provider_named(c.providers@, c.routes@[i as int].provider@) {
        Some(i)
    } else {
        first_orphan_route(c, i + 1)
    }
}

/// Whether the models of a route are exactly `["*"]`.
pub open spec fn is_catch_all(models: Seq<String>) -> bool {
    models.len() == 1 && models[0]@ == "*"@
}

/// What checking `c` gives: the first problem found, in this order, or
/// nothing.
pub open spec fn validation(c: Config) -> Result<(), Seq<char>> {
    if c.providers@.len() == 0 {
        Err("at least one provider is required"@)
    } else if c.routes@.len() == 0 {
        Err("at least one route is required"@)
    } else if first_bad_provider(c.providers@, 0) is Some {
        let i = first_bad_provider(c.providers@, 0)->0;
        let p = c.providers@[i as int];
        Err("provider '"@ + p.0@ + "': "@ + unknown_protocol_text(p.1.protocol@))
    } else if first_orphan_route(c, 0) is Some {
        let i = first_orphan_route(c, 0)->0;
        Err("route["@ + nat_text(i) + "]: provider '"@ + c.routes@[i as int].provider@
            + "' not found in providers"@)
    } else if !is_catch_all(c.routes@.last().models@) {
        Err("last route must be models: [\"*\"] as fallback"@)
    } else if c.routes@.last().protocol is Some || c.routes@.last().stream is Some
        || c.routes@.last().has_tools is Some || c.routes@.last().has_media is Some {
        Err("fallback route must not have extra conditions"@)
    } else {
        Ok(())
    }
}

fn has_provider(ps: &Vec<(String, ProviderDef)>, name: &str) -> (r: bool)
    ensures
        r == provider_named(ps@, name@),
{
    let mut i: usize = 0;
    while i < ps.len()
        invariant
            i <= ps@.len(),
            forall|k: int| 0 <= k < i ==> (#[trigger] ps@[k]).0@ != name@,
        decreases ps.len() - i,
    {
        if str_eq(ps[i].0.as_str(), name) {
            return true;
        }
        i = i + 1;
    }
    false
}

fn protocol_known(s: &str) -> (r: bool)
    ensures
        r == (protocol_named(s@) is Some),
{
    parse_protocol(s).is_ok()
}

impl Config {
    /// Checks the configuration (see [`validation`]).
    pub fn validate(&self) -> (r: Result<(), String>)
        ensures
            match validation(*self) {
                Ok(()) => r is Ok,
                Err(m) => r matches Err(e) && e@ == m,
            },
    {
        if self.providers.len() == 0 {
            return Err("at least one provider is required".to_string());
        }
        if self.routes.len() == 0 {
            return Err("at least one route is required".to_string());
        }
        let mut i: usize = 0;
        while i < self.providers.len()
            invariant
                i <= self.providers@.len(),
                self.routes@.len() > 0,
                first_bad_provider(self.providers@, 0) == first_bad_provider(self.providers@, i as nat),
            decreases self.providers.len() - i,
        {
            if !protocol_known(self.providers[i].1.protocol.as_str()) {
                let name = &self.providers[i].0;
                let proto = self.providers[i].1.protocol.as_str();
                let msg = concat(
                    &concat(&concat("provider '", name.as_str()), "': "),
                    &concat("unknown protocol: ", proto),
                );
                return Err(msg);
            }
            i = i + 1;
        }
        let mut i: usize = 0;
        while i < self.routes.len()
            invariant
                i <= self.routes@.len(),
                self.providers@.len() > 0,
                first_bad_provider(self.providers@, 0) is None,
                first_orphan_route(*self, 0) == first_orphan_route(*self, i as nat),
            decreases self.routes.len() - i,
        {
            if !has_provider(&self.providers, self.routes[i].provider.as_str()) {
                let msg = concat(
                    &concat(
                        &concat(&concat("route[", &text_of_nat(i as u64)), "]: provider '"),
                        self.routes[i].provider.as_str(),
                    ),
                    "' not found in providers",
                );
                return Err(msg);
            }
            i = i + 1;
        }
        let last = &self.routes[self.routes.len() - 1];
        if !(last.models.len() == 1 && str_eq(last.models[0].as_str(), "*")) {
            return Err("last route must be models: [\"*\"] as fallback".to_string());
        }
        if last.protocol.is_some() || last.stream.is_some() || last.has_tools.is_some()
            || last.has_media.is_some() {
            return Err("fallback route must not have extra conditions".to_string());
        }
        Ok(())
    }
}

/// Whether `pc` is the provider that `pd` describes, with protocol `p`.
pub open spec fn provider_from_def(pc: ProviderConfig, pd: ProviderDef, p: Protocol) -> bool {
    &&& pc.protocol == p
    &&& pc.base_url@ == pd.base_url@
    &&& pc.api_key@ == pd.api_key@
    &&& pc.headers.deep_view() == pd.headers.deep_view()
    &&& pc.model_mapping.deep_view() == pd.model_mapping.deep_view()
}

/// The first route from position `i` on whose protocol name is unknown.
pub open spec fn first_bad_route_protocol(rs: Seq<RouteDef>, i: nat) -> Option<nat>
    decreases rs.len() - i,
{
    if i >= rs.len() {
        None
    } else if rs[i as int].protocol matches Some(p) && protocol_named(p@) is None {
        Some(i)
    } else {
        first_bad_route_protocol(rs, i + 1)
    }
}

/// Whether `rule` is the rule that `rd` describes.
pub open spec fn rule_from_def(rule: RouteRule, rd: RouteDef) -> bool {
    &&& rule.models.deep_view() == rd.models.deep_view()
    &&& rule.protocol == match rd.protocol {
        Some(p) => protocol_named(p@),
        None => None,
    }
    &&& rule.stream == rd.stream
    &&& rule.has_tools == rd.has_tools
    &&& rule.has_media == rd.has_media
    &&& rule.provider@ == rd.provider@
}

/// What building the router of `c` gives.
pub open spec fn router_outcome(c: Config, r: Result<ConfigurableRouter, String>) -> bool {
    match first_bad_provider(c.providers@, 0) {
        Some(i) => r matches Err(m) && m@ == unknown_protocol_text(c.providers@[i as int].1.protocol@),
        None => match first_bad_route_protocol(c.routes@, 0) {
            Some(k) => r matches Err(m) && m@ == unknown_protocol_text(
                c.routes@[k as int].protocol->0@,
            ),
            None => r matches Ok(router) && router.providers@.len() == c.providers@.len()
                && router.rules@.len() == c.routes@.len() && (forall|i: int|
                0 <= i < c.providers@.len() ==> (#[trigger] router.providers@[i]).0@
                    == c.providers@[i].0@ && provider_from_def(
                    router.providers@[i].1,
                    c.providers@[i].1,
                    protocol_named(c.providers@[i].1.protocol@)->0,
                )) && (forall|k: int|
                0 <= k < c.routes@.len() ==> rule_from_def(
                    #[trigger] router.rules@[k],
                    c.routes@[k],
                )),
        },
    }
}

fn copy_strings(v: &Vec<String>) -> (r: Vec<String>)
    ensures
        r.deep_view() == v.deep_view(),
{
    let mut out: Vec<String> = Vec::new();
    let mut i: usize = 0;
    while i < v.len()
        invariant
            i <= v@.len(),
            out.deep_view() == v.deep_view().take(i as int),
        decreases v.len() - i,
    {
        let ghost before = out.deep_view();
        out.push(v[i].clone());
        assert(out.deep_view() =~= before.push(v@[i as int]@));
        assert(out.deep_view() =~= v.deep_view().take(i + 1));
        i = i + 1;
    }
    assert(v.deep_view().take(i as int) =~= v.deep_view());
    out
}

impl Config {
    /// The router this configuration describes (see [`router_outcome`]).
    pub fn to_router(&self) -> (r: Result<ConfigurableRouter, String>)
        ensures
            router_outcome(*self, r),
    {
        let mut providers: Vec<(String, ProviderConfig)> = Vec::new();
        let mut i: usize = 0;
        while i < self.providers.len()
            invariant
                i <= self.providers@.len(),
                first_bad_provider(self.providers@, 0) == first_bad_provider(self.providers@, i as nat),
                providers@.len() == i,
                forall|q: int|
                    0 <= q < i ==> (#[trigger] providers@[q]).0@ == self.providers@[q].0@
                        && provider_from_def(
                        providers@[q].1,
                        self.providers@[q].1,
                        protocol_named(self.providers@[q].1.protocol@)->0,
                    ),
            decreases self.providers.len() - i,
        {
            let pd = &self.providers[i].1;
            let protocol = match parse_protocol(pd.protocol.as_str()) {
                Ok(p) => p,
                Err(e) => {
                    return Err(e);
                },
            };
            let pc = ProviderConfig {
                protocol,
                base_url: pd.base_url.clone(),
                api_key: pd.api_key.clone(),
                headers: crate::codec::copy_pairs(&pd.headers),
                model_mapping: crate::codec::copy_pairs(&pd.model_mapping),
            };
            providers.push((self.providers[i].0.clone(), pc));
            i = i + 1;
        }
        let mut rules: Vec<RouteRule> = Vec::new();
        let mut k: usize = 0;
        while k < self.routes.len()
            invariant
                k <= self.routes@.len(),
                first_bad_provider(self.providers@, 0) is None,
                first_bad_route_protocol(self.routes@, 0) == first_bad_route_protocol(
                    self.routes@,
                    k as nat,
                ),
                rules@.len() == k,
                forall|q: int| 0 <= q < k ==> rule_from_def(#[trigger] rules@[q], self.routes@[q]),
            decreases self.routes.len() - k,
        {
            let rd = &self.routes[k];
            let protocol = match &rd.protocol {
                Some(p) => match parse_protocol(p.as_str()) {
                    Ok(x) => Some(x),
                    Err(e) => {
                        return Err(e);
                    },
                },
                None => None,
            };
            rules.push(
                RouteRule {
                    models: copy_strings(&rd.models),
                    protocol,
                    stream: rd.stream,
                    has_tools: rd.has_tools,
                    has_media: rd.has_media,
                    provider: rd.provider.clone(),
                },
            );
            k = k + 1;
        }
        Ok(ConfigurableRouter::new(rules, providers))
    }
}

// ---------------------------------------------------------------------------
// What is shown
// ---------------------------------------------------------------------------

/// Whether a secret can be shortened for display: at most 8 bytes, or
/// its 9th byte starts a character.
pub open spec fn maskable(s: Seq<char>) -> bool {
    encode_utf8(s).len() > 8 ==> vstd::utf8::is_char_boundary(encode_utf8(s), 8)
}

/// A secret as it is shown: more than 8 bytes become their first 8 and
/// `***`.
pub open spec fn masked_v(s: Seq<char>) -> Seq<char> {
    if encode_utf8(s).len() > 8 {
        vstd::utf8::decode_utf8(encode_utf8(s).take(8)) + "***"@
    } else {
        s
    }
}

/// A secret as it is shown (see [`masked_v`]).
pub fn mask_secret(s: &str) -> (r: String)
    requires
        maskable(s@),
    ensures
        r@ == masked_v(s@),
{
    if s.as_bytes().len() > 8 {
        let (head, _tail) = s.split_at(8);
        assert(encode_utf8(head@) == encode_utf8(s@).take(8)) by {
            assert(encode_utf8(s@).subrange(0, 8) =~= encode_utf8(s@).take(8));
        }
        proof {
            vstd::utf8::encode_utf8_decode_utf8(head@);
        }
        concat(head, "***")
    } else {
        s.to_string()
    }
}

/// Whether every value of `pairs` can be shortened for display.
pub open spec fn values_maskable(pairs: Seq<(String, String)>) -> bool {
    forall|k: int| 0 <= k < pairs.len() ==> maskable(#[trigger] pairs[k].1@)
}

/// `pairs` with every value shown masked.
pub open spec fn masked_values(pairs: Seq<(Seq<char>, Seq<char>)>) -> Seq<(Seq<char>, Seq<char>)> {
    pairs.map_values(|h: (Seq<char>, Seq<char>)| (h.0, masked_v(h.1)))
}

/// `pairs` with every value shown masked (see [`masked_values`]).
fn mask_values(pairs: &Vec<(String, String)>) -> (r: Vec<(String, String)>)
    requires
        values_maskable(pairs@),
    ensures
        r.deep_view() == masked_values(pairs.deep_view()),
{
    let mut out: Vec<(String, String)> = Vec::new();
    let mut i: usize = 0;
    while i < pairs.len()
        invariant
            i <= pairs@.len(),
            values_maskable(pairs@),
            out@.len() == i,
            forall|j: int|
                0 <= j < i ==> (#[trigger] out@[j]).0@ == pairs@[j].0@ && out@[j].1@ == masked_v(
                    pairs@[j].1@,
                ),
        decreases pairs.len() - i,
    {
        assert(maskable(pairs@[i as int].1@));
        out.push((pairs[i].0.clone(), mask_secret(pairs[i].1.as_str())));
        i = i + 1;
    }
    assert(out.deep_view() =~= masked_values(pairs.deep_view()));
    out
}

/// Whether every secret of the configuration can be shortened for display.
pub open spec fn secrets_maskable(c: Config) -> bool {
    forall|i: int|
        0 <= i < c.providers.len() ==> maskable((#[trigger] c.providers@[i]).1.api_key@)
            && values_maskable(c.providers@[i].1.headers@)
}

/// Whether `p` is `p0` with its key and header values masked.
pub open spec fn provider_masked(p: ProviderDef, p0: ProviderDef) -> bool {
    &&& p.protocol@ == p0.protocol@
    &&& p.base_url@ == p0.base_url@
    &&& p.api_key@ == masked_v(p0.api_key@)
    &&& p.headers.deep_view() == masked_values(p0.headers.deep_view())
    &&& p.model_mapping.deep_view() == p0.model_mapping.deep_view()
}

impl Config {
    /// Masks the secrets that the shown configuration would reveal: each
    /// provider's key and header values (see [`masked_v`]); the rest stays.
    pub fn mask_secrets(&mut self)
        requires
            secrets_maskable(*old(self)),
        ensures
            final(self).host == old(self).host,
            final(self).port == old(self).port,
            final(self).log_level == old(self).log_level,
            final(self).drain_timeout_secs == old(self).drain_timeout_secs,
            final(self).api_keys == old(self).api_keys,
            final(self).routes == old(self).routes,
            final(self).providers@.len() == old(self).providers@.len(),
            forall|i: int|
                0 <= i < final(self).providers@.len() ==> (#[trigger] final(self).providers@[i]).0@
                    == old(self).providers@[i].0@ && provider_masked(
                    final(self).providers@[i].1,
                    old(self).providers@[i].1,
                ),
    {
        let mut out: Vec<(String, ProviderDef)> = Vec::new();
        let mut i: usize = 0;
        while i < self.providers.len()
            invariant
                i <= self.providers@.len(),
                secrets_maskable(*self),
                out@.len() == i,
                forall|j: int|
                    0 <= j < i ==> (#[trigger] out@[j]).0@ == self.providers@[j].0@ && provider_masked(
                        out@[j].1,
                        self.providers@[j].1,
                    ),
            decreases self.providers.len() - i,
        {
            let ghost pi = self.providers@[i as int];
            assert(maskable(pi.1.api_key@) && values_maskable(pi.1.headers@));
            let p = &self.providers[i].1;
            let masked = ProviderDef {
                protocol: p.protocol.clone(),
                base_url: p.base_url.clone(),
                api_key: mask_secret(p.api_key.as_str()),
                headers: mask_values(&p.headers),
                model_mapping: crate::codec::copy_pairs(&p.model_mapping),
            };
            out.push((self.providers[i].0.clone(), masked));
            i = i + 1;
        }
        let ghost before = *self;
        self.providers = out;
        assert(self.routes == before.routes);
    }
}

/// The template that `config init` writes.
pub open spec fn default_config_text() -> Seq<char> {
    "host: 127.0.0.1\nport: 8080\nlog_level: info\ndrain_timeout_secs: 30\n\n# Keys that clients must present; leave empty to accept every key.\napi_keys: []\n\nproviders:\n  openai:\n    protocol: openai-chat\n    base_url: https://api.openai.com\n    api_key: ${OPENAI_API_KEY}\n  anthropic:\n    protocol: anthropic\n    base_url: https://api.anthropic.com\n    api_key: ${ANTHROPIC_API_KEY}\n    headers:\n      anthropic-version: \"2023-06-01\"\n\nroutes:\n  - models: [\"gpt-*\"]\n    provider: openai\n  - models: [\"*\"]\n    provider: anthropic\n"@
}

impl Config {
    /// The template that `config init` writes (see [`default_config_text`]).
    pub fn generate_default() -> (r: String)
        ensures
            r@ == default_config_text(),
    {
        "host: 127.0.0.1\nport: 8080\nlog_level: info\ndrain_timeout_secs: 30\n\n# Keys that clients must present; leave empty to accept every key.\napi_keys: []\n\nproviders:\n  openai:\n    protocol: openai-chat\n    base_url: https://api.openai.com\n    api_key: ${OPENAI_API_KEY}\n  anthropic:\n    protocol: anthropic\n    base_url: https://api.anthropic.com\n    api_key: ${ANTHROPIC_API_KEY}\n    headers:\n      anthropic-version: \"2023-06-01\"\n\nroutes:\n  - models: [\"gpt-*\"]\n    provider: openai\n  - models: [\"*\"]\n    provider: anthropic\n".to_string()
    }
}

// ---------------------------------------------------------------------------
// A valid configuration routes every request
// ---------------------------------------------------------------------------

/// When a rule at `k` matches, some rule from `i` on does, and the first
/// one found is a matching rule in range.
proof fn lemma_first_rule_found(rules: Seq<RouteRule>, info: RouteInfo, i: nat, k: int)
    requires
        i <= k < rules.len(),
        rule_matches(rules[k], info),
    ensures
        first_rule_from(rules, info, i) matches Some(f) && i <= f <= k,
    decreases k - i,
{
    if !rule_matches(rules[i as int], info) {
        lemma_first_rule_found(rules, info, i + 1, k);
    }
}

/// When the entry at `k` has the key `key`, an entry with that key is
/// found from any `i <= k` on.
proof fn lemma_first_key_found<V>(entries: Seq<(String, V)>, key: Seq<char>, i: nat, k: int)
    requires
        i <= k < entries.len(),
        entries[k].0@ == key,
    ensures
        first_key_from(entries, key, i) is Some,
    decreases k - i,
{
    if entries[i as int].0@ != key {
        lemma_first_key_found(entries, key, i + 1, k);
    }
}

/// When no route from `i` on names a missing provider, the route at `k`
/// names a configured one.
proof fn lemma_no_orphan(c: Config, i: nat, k: int)
    requires
        first_orphan_route(c, i) is None,
        i <= k < c.routes@.len(),
    ensures
        provider_named(c.providers@, c.routes@[k].provider@),
    decreases k - i,
{
    if i < k {
        lemma_no_orphan(c, i + 1, k);
    }
}

/// A configuration that passes [`Config::validate`], and whose route
/// conditions name known protocols, builds a router that sends every
/// request to a provider: the last route catches whatever the others do
/// not, and every route's provider exists.
pub proof fn law_valid_config_routes_every_request(
    c: Config,
    r: Result<ConfigurableRouter, String>,
    info: RouteInfo,
    res: Result<RouteResult, CodecError>,
)
    requires
        validation(c) is Ok,
        first_bad_route_protocol(c.routes@, 0) is None,
        router_outcome(c, r),
    ensures
        r is Ok,
        (r matches Ok(router) && route_outcome(router.rules@, router.providers@, info, res))
            ==> res is Ok,
{
    if let Ok(router) = r {
        if route_outcome(router.rules@, router.providers@, info, res) {
            let rules = router.rules@;
            let last = c.routes@.len() - 1;
            assert(rule_from_def(rules[last], c.routes@[last]));
            let m = rules[last].models;
            let rd = c.routes@[last];
            assert(c.routes@.last() == rd);
            assert(is_catch_all(rd.models@));
            assert(rd.models.deep_view()[0] == rd.models@[0]@);
            assert(m.deep_view().len() == 1);
            assert(m@.len() == 1);
            assert(m.deep_view()[0] == m@[0]@);
            assert(m@[0]@ == "*"@);
            reveal_strlit("*");
            let star = m@[0]@;
            assert(star.len() == 1 && star[0] == '*');
            assert(encode_utf8(star) == seq![42u8]) by {
                assert(star.drop_first() =~= Seq::<char>::empty());
                assert(('*' as u32) == 42);
                assert((42u32 & 0x7F) as u8 == 42u8) by (bit_vector);
                assert(encode_utf8(star.drop_first()) =~= Seq::<u8>::empty());
                assert(vstd::utf8::encode_scalar(42u32) =~= seq![42u8]);
                assert(encode_utf8(star) =~= vstd::utf8::encode_scalar(42u32) + encode_utf8(
                    star.drop_first(),
                ));
            }
            crate::codec::law_catch_all_rule_matches(rules[last], info, 0);
            lemma_first_rule_found(rules, info, 0, last);
            let f = first_rule_from(rules, info, 0)->0;
            assert(rule_from_def(rules[f as int], c.routes@[f as int]));
            lemma_no_orphan(c, 0, f as int);
            let name = c.routes@[f as int].provider@;
            let pi = choose|pi: int| 0 <= pi < c.providers@.len() && (#[trigger] c.providers@[pi]).0@ == name;
            assert(router.providers@[pi].0@ == c.providers@[pi].0@);
            lemma_first_key_found(router.providers@, rules[f as int].provider@, 0, pi);
        }
    }
}

// ---------------------------------------------------------------------------
// Process id files
// ---------------------------------------------------------------------------

/// The value of a decimal digit character.
pub open spec fn digit_value(c: char) -> int {
    (c as u32) - 48
}

/// Whether `c` is a decimal digit.
pub open spec fn is_digit(c: char) -> bool {
    48 <= c as u32 <= 57
}

/// The number that the decimal digits `d` write.
pub open spec fn decimal(d: Seq<char>) -> nat
    decreases d.len(),
{
    if d.len() == 0 {
        0
    } else {
        (decimal(d.drop_last()) * 10 + digit_value(d.last())) as nat
    }
}

/// The digits of a process id file's text: its trimmed text without one
/// leading `+`.
pub open spec fn pid_digits(text: Seq<char>) -> Seq<char> {
    let t = crate::sse::trimmed(text);
    if t.len() > 0 && t[0] == '+' {
        t.drop_first()
    } else {
        t
    }
}

/// Whether every character of `d` is a decimal digit.
pub open spec fn all_digits(d: Seq<char>) -> bool {
    forall|i: int| 0 <= i < d.len() ==> is_digit(#[trigger] d[i])
}

/// The process id that the text of a process id file holds: its trimmed
/// text, an optional `+` and at least one decimal digit, naming a number
/// that fits in 32 bits.
pub open spec fn pid_value(text: Seq<char>) -> Option<u32> {
    let d = pid_digits(text);
    if d.len() > 0 && all_digits(d) && decimal(d) <= u32::MAX {
        Some(decimal(d) as u32)
    } else {
        None
    }
}

/// More digits never write a smaller number.
proof fn lemma_decimal_grows(d: Seq<char>, i: int)
    requires
        0 <= i <= d.len(),
        forall|k: int| 0 <= k < d.len() ==> is_digit(#[trigger] d[k]),
    ensures
        decimal(d.take(i)) <= decimal(d),
    decreases d.len() - i,
{
    if i < d.len() {
        lemma_decimal_grows(d, i + 1);
        assert(d.take(i + 1).drop_last() =~= d.take(i));
        assert(d.take(i + 1).last() == d[i]);
        assert(is_digit(d[i]));
        let a = decimal(d.take(i));
        assert(a * 10 + digit_value(d[i]) >= a) by (nonlinear_arith)
            requires
                a >= 0,
                digit_value(d[i]) >= 0,
        ;
    } else {
        assert(d.take(i) =~= d);
    }
}

/// The process id that the text of a process id file holds (see
/// [`pid_value`]).
pub fn parse_pid(text: &str) -> (r: Option<u32>)
    ensures
        r == pid_value(text@),
{
    let t = crate::sse::trim(text);
    let cs = chars_of(t.as_str());
    let start: usize = if cs.len() > 0 && cs[0] == '+' {
        1
    } else {
        0
    };
    let ghost d = cs@.skip(start as int);
    assert(cs@ == crate::sse::trimmed(text@));
    assert(d =~= if t@.len() > 0 && t@[0] == '+' {
        t@.drop_first()
    } else {
        t@
    });
    if start == cs.len() {
        return None;
    }
    let mut i: usize = start;
    while i < cs.len()
        invariant
            start <= i <= cs@.len(),
            d == cs@.skip(start as int),
            d == pid_digits(text@),
            d.len() > 0,
            forall|k: int| 0 <= k < i - start ==> is_digit(#[trigger] d[k]),
        decreases cs.len() - i,
    {
        let n = cs[i] as u32;
        assert(d[i - start] == cs@[i as int]);
        if n < 48 || n > 57 {
            assert(n == cs@[i as int] as u32);
            assert(!is_digit(d[i - start]));
            assert(!all_digits(d));
            return None;
        }
        i = i + 1;
    }
    let mut acc: u64 = 0;
    let mut j: usize = start;
    while j < cs.len()
        invariant
            start <= j <= cs@.len(),
            d == cs@.skip(start as int),
            d == pid_digits(text@),
            all_digits(d),
            acc == decimal(d.take(j - start)),
            acc <= u32::MAX,
        decreases cs.len() - j,
    {
        let ghost k = j - start;
        assert(d.take(k + 1).drop_last() =~= d.take(k));
        assert(d.take(k + 1).last() == d[k]);
        assert(is_digit(d[k]));
        assert(d[k] == cs@[j as int]);
        let v = (cs[j] as u32 - 48) as u64;
        assert(v == digit_value(d[k]));
        assert(acc * 10 + v <= 4294967295u64 * 10 + 9) by (nonlinear_arith)
            requires
                acc <= 4294967295u64,
                v <= 9,
        ;
        acc = acc * 10 + v;
        assert(acc == decimal(d.take(k + 1)));
        if acc > 4294967295u64 {
            proof {
                lemma_decimal_grows(d, k + 1);
            }
            return None;
        }
        j = j + 1;
    }
    assert(d.take(d.len() as int) =~= d);
    Some(acc as u32)
}

} // verus!
