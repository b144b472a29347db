use vstd::prelude::*;

verus! {

broadcast use vstd::seq_lib::group_seq_properties;

use crate::conf::CharacteristicConfig;
use crate::conf::Qos;
use crate::conf::TemplateValue;
use crate::error::CollectorError;
use crate::events::ConnectPeripheralRequest;
use crate::model::addr_to_string;
use crate::model::spec_addr_str;
use crate::model::spec_uuid_str;
use crate::model::uuid_to_string;
use crate::model::Fqcn;
use crate::text::push_char;

pub open spec fn spec_clean_char(c: char) -> char {
    if ('a' <= c && c <= 'z') || ('A' <= c && c <= 'Z') || ('0' <= c && c <= '9') || c == '-'
        || c == '_' {
        c
    } else {
        '_'
    }
}

/// The sanitized form of a string: alphanumerics, underscore and hyphen
/// pass through, every other character becomes an underscore.
pub open spec fn spec_clean(s: Seq<char>) -> Seq<char> {
    Seq::new(s.len(), |i: int| spec_clean_char(s[i]))
}

/// Sanitizes a string for use in topic names and identifiers.
pub fn clean_str(s: &str) -> (r: String)
    ensures
        r@ == spec_clean(s@),
{
    let n = s.unicode_len();
    let mut r = String::new();
    let mut i: usize = 0;
    while i < n
        invariant
            i <= n,
            n == s@.len(),
            r@ =~= spec_clean(s@).take(i as int),
        decreases n - i,
    {
        let c = s.get_char(i);
        let keep = (('a' <= c && c <= 'z') || ('A' <= c && c <= 'Z') || ('0' <= c && c <= '9')
            || c == '-' || c == '_');
        let out = if keep {
            c
        } else {
            '_'
        };
        proof {
            assert(out == spec_clean_char(s@[i as int]));
        }
        push_char(&mut r, out);
        proof {
            assert(r@ =~= spec_clean(s@).take(i + 1));
        }
        i = i + 1;
    }
    proof {
        assert(r@ =~= spec_clean(s@));
    }
    r
}

/// How one character appears inside a JSON string literal: quotes and
/// backslashes are escaped, control characters take the `\u00XX` form.
pub open spec fn spec_json_escape_char(c: char) -> Seq<char> {
    if c == '"' {
        seq!['\\', '"']
    } else if c == '\\' {
        seq!['\\', '\\']
    } else if (c as u32) < 32 {
        seq!['\\', 'u', '0', '0'] + seq![
            crate::model::spec_hex_lower(((c as u32) / 16) as u8),
            crate::model::spec_hex_lower(((c as u32) % 16) as u8),
        ]
    } else {
        seq![c]
    }
}

pub open spec fn spec_json_escaped(s: Seq<char>) -> Seq<char>
    decreases s.len(),
{
    if s.len() == 0 {
        Seq::empty()
    } else {
        spec_json_escaped(s.drop_last()) + spec_json_escape_char(s.last())
    }
}

/// A JSON string literal: the escaped text between quotes.
pub open spec fn spec_json_str(s: Seq<char>) -> Seq<char> {
    seq!['"'] + spec_json_escaped(s) + seq!['"']
}

pub open spec fn spec_json_opt_str(s: Option<Seq<char>>) -> Seq<char> {
    match s {
        Some(v) => spec_json_str(v),
        None => "null"@,
    }
}

/// Appends the escaped form of one string.
#[verifier::loop_isolation(false)]
fn push_json_escaped(out: &mut String, s: &str)
    ensures
        final(out)@ == old(out)@ + spec_json_escaped(s@),
{
    let n = s.unicode_len();
    let mut i: usize = 0;
    proof {
        assert(spec_json_escaped(s@.take(0)) =~= Seq::<char>::empty());
        assert(out@ =~= old(out)@ + spec_json_escaped(s@.take(0)));
    }
    while i < n
        invariant
            i <= n,
            n == s@.len(),
            out@ == old(out)@ + spec_json_escaped(s@.take(i as int)),
        decreases n - i,
    {
        let c = s.get_char(i);
        proof {
            assert(s@.take(i + 1).drop_last() =~= s@.take(i as int));
            assert(s@.take(i + 1).last() == s@[i as int]);
        }
        if c == '"' {
            push_char(out, '\\');
            push_char(out, '"');
        } else if c == '\\' {
            push_char(out, '\\');
            push_char(out, '\\');
        } else if (c as u32) < 32 {
            push_char(out, '\\');
            push_char(out, 'u');
            push_char(out, '0');
            push_char(out, '0');
            let code = c as u32;
            let hi = crate::model::hex_lower((code / 16) as u8);
            let lo = crate::model::hex_lower((code % 16) as u8);
            push_char(out, hi);
            push_char(out, lo);
        } else {
            push_char(out, c);
        }
        proof {
            assert(out@ =~= old(out)@ + spec_json_escaped(s@.take(i + 1)));
        }
        i = i + 1;
    }
    proof {
        assert(s@.take(n as int) =~= s@);
    }
}

/// Appends a JSON string literal.
fn push_json_str(out: &mut String, s: &str)
    ensures
        final(out)@ == old(out)@ + spec_json_str(s@),
{
    push_char(out, '"');
    push_json_escaped(out, s);
    push_char(out, '"');
    proof {
        assert(out@ =~= old(out)@ + spec_json_str(s@));
    }
}

/// Appends a JSON string literal or `null`.
fn push_json_opt_str(out: &mut String, s: &Option<String>)
    ensures
        final(out)@ == old(out)@ + spec_json_opt_str(
            match s {
                Some(v) => Some(v@),
                None => None,
            },
        ),
{
    match s {
        Some(v) => push_json_str(out, v.as_str()),
        None => {
            push_str(out, "null");
        },
    }
}

/// Appends a literal piece.
fn push_str(out: &mut String, s: &str)
    ensures
        final(out)@ == old(out)@ + s@,
{
    vstd::string::StringExecFns::append(out, s);
}

/// The evaluation context handed to the template engine, as JSON: the fqcn
/// and its sanitized form, the configured names and their sanitized forms,
/// and the advertised peripheral name when one is known.
pub open spec fn spec_ctx_json(
    fqcn: Fqcn,
    service_name: Option<Seq<char>>,
    characteristic_name: Option<Seq<char>>,
    peripheral_name: Option<Seq<char>>,
) -> Seq<char> {
    let a = spec_addr_str(fqcn.peripheral);
    let s = spec_uuid_str(fqcn.service);
    let c = spec_uuid_str(fqcn.characteristic);
    "{\"fqcn\":{\"peripheral\":"@ + spec_json_str(a) + ",\"service\":"@ + spec_json_str(s)
        + ",\"characteristic\":"@ + spec_json_str(c) + "},\"clean_fqcn\":{\"peripheral\":"@
        + spec_json_str(spec_clean(a)) + ",\"service\":"@ + spec_json_str(spec_clean(s))
        + ",\"characteristic\":"@ + spec_json_str(spec_clean(c)) + "},\"service_name\":"@
        + spec_json_opt_str(service_name) + ",\"clean_service_name\":"@ + spec_json_opt_str(
        match service_name {
            Some(v) => Some(spec_clean(v)),
            None => None,
        },
    ) + ",\"characteristic_name\":"@ + spec_json_opt_str(characteristic_name)
        + ",\"clean_characteristic_name\":"@ + spec_json_opt_str(
        match characteristic_name {
            Some(v) => Some(spec_clean(v)),
            None => None,
        },
    ) + ",\"peripheral_name\":"@ + spec_json_opt_str(peripheral_name)
        + ",\"clean_peripheral_name\":"@ + spec_json_opt_str(
        match peripheral_name {
            Some(v) => Some(spec_clean(v)),
            None => None,
        },
    ) + "}"@
}

fn clean_opt(s: &Option<String>) -> (r: Option<String>)
    ensures
        r is Some <==> s is Some,
        r matches Some(v) ==> s matches Some(w) && v@ == spec_clean(w@),
{
    match s {
        Some(v) => Some(clean_str(v.as_str())),
        None => None,
    }
}

/// Builds the evaluation context as JSON text.
pub fn build_context_json(
    fqcn: Fqcn,
    service_name: &Option<String>,
    characteristic_name: &Option<String>,
    peripheral_name: &Option<String>,
) -> (r: String)
    ensures
        r@ == spec_ctx_json(
            fqcn,
            match service_name {
                Some(v) => Some(v@),
                None => None,
            },
            match characteristic_name {
                Some(v) => Some(v@),
                None => None,
            },
            match peripheral_name {
                Some(v) => Some(v@),
                None => None,
            },
        ),
{
    let a = addr_to_string(fqcn.peripheral);
    let s = uuid_to_string(fqcn.service);
    let c = uuid_to_string(fqcn.characteristic);
    let ca = clean_str(a.as_str());
    let cs = clean_str(s.as_str());
    let cc = clean_str(c.as_str());
    let clean_service = clean_opt(service_name);
    let clean_characteristic = clean_opt(characteristic_name);
    let clean_peripheral = clean_opt(peripheral_name);
    let mut out = String::new();
    push_str(&mut out, "{\"fqcn\":{\"peripheral\":");
    push_json_str(&mut out, a.as_str());
    push_str(&mut out, ",\"service\":");
    push_json_str(&mut out, s.as_str());
    push_str(&mut out, ",\"characteristic\":");
    push_json_str(&mut out, c.as_str());
    push_str(&mut out, "},\"clean_fqcn\":{\"peripheral\":");
    push_json_str(&mut out, ca.as_str());
    push_str(&mut out, ",\"service\":");
    push_json_str(&mut out, cs.as_str());
    push_str(&mut out, ",\"characteristic\":");
    push_json_str(&mut out, cc.as_str());
    push_str(&mut out, "},\"service_name\":");
    push_json_opt_str(&mut out, service_name);
    push_str(&mut out, ",\"clean_service_name\":");
    push_json_opt_str(&mut out, &clean_service);
    push_str(&mut out, ",\"characteristic_name\":");
    push_json_opt_str(&mut out, characteristic_name);
    push_str(&mut out, ",\"clean_characteristic_name\":");
    push_json_opt_str(&mut out, &clean_characteristic);
    push_str(&mut out, ",\"peripheral_name\":");
    push_json_opt_str(&mut out, peripheral_name);
    push_str(&mut out, ",\"clean_peripheral_name\":");
    push_json_opt_str(&mut out, &clean_peripheral);
    push_str(&mut out, "}");
    proof {
        assert(out@ =~= spec_ctx_json(
            fqcn,
            match service_name {
                Some(v) => Some(v@),
                None => None,
            },
            match characteristic_name {
                Some(v) => Some(v@),
                None => None,
            },
            match peripheral_name {
                Some(v) => Some(v@),
                None => None,
            },
        ));
    }
    out
}

pub open spec fn spec_opt_view(o: Option<&String>) -> Option<Seq<char>> {
    match o {
        Some(s) => Some(s@),
        None => None,
    }
}

/// What the template engine returns for an expression under a context and
/// the optionally injected topics; with timers disabled the engine's result
/// is a function of these inputs alone. `None` stands for an evaluation
/// failure.
pub uninterp spec fn rhai_eval_of(
    ctx_json: Seq<char>,
    state_topic: Option<Seq<char>>,
    config_topic: Option<Seq<char>>,
    expr: Seq<char>,
) -> Option<Seq<char>>;

/// Relies on rhai::Engine::eval_with_scope (an engine without timers, so
/// the result depends on the scope and expression alone), with the context
/// deserialized by serde_json::from_str into a rhai::Dynamic and pushed as
/// `ctx`, and the topics pushed when given.
#[verifier::external_body]
fn rhai_eval(
    ctx_json: &str,
    state_topic: Option<&String>,
    config_topic: Option<&String>,
    expr: &str,
) -> (r: Result<String, String>)
    ensures
        r matches Ok(s) ==> rhai_eval_of(
            ctx_json@,
            spec_opt_view(state_topic),
            spec_opt_view(config_topic),
            expr@,
        ) == Some(s@),
        r is Err <==> rhai_eval_of(
            ctx_json@,
            spec_opt_view(state_topic),
            spec_opt_view(config_topic),
            expr@,
        ) is None,
{
    let engine = rhai::Engine::new();
    let ctx: rhai::Dynamic = match serde_json::from_str(ctx_json) {
        Ok(d) => d,
        Err(e) => return Err(e.to_string()),
    };
    let mut scope = rhai::Scope::new();
    scope.push("ctx", ctx);
    if let Some(s) = state_topic {
        scope.push("state_topic", s.clone());
    }
    if let Some(c) = config_topic {
        scope.push("config_topic", c.clone());
    }
    engine.eval_with_scope::<String>(&mut scope, expr).map_err(|e| e.to_string())
}

/// Whether interpolating the tree fails somewhere: a string leaf whose
/// expression the engine rejects.
pub open spec fn spec_interp_fails(
    v: TemplateValue,
    c: Seq<char>,
    st: Option<Seq<char>>,
    ct: Option<Seq<char>>,
) -> bool
    decreases v,
{
    match v {
        TemplateValue::Str(s) => rhai_eval_of(c, st, ct, s@) is None,
        TemplateValue::Arr(items) => exists|i: int|
            0 <= i < items@.len() && spec_interp_fails(#[trigger] items@[i], c, st, ct),
        TemplateValue::Obj(fields) => exists|i: int|
            0 <= i < fields@.len() && spec_interp_fails((#[trigger] fields@[i]).1, c, st, ct),
        _ => false,
    }
}

/// Whether `out` is exactly `v` with every string leaf replaced by its
/// evaluation; non-string leaves pass through unchanged, arrays and objects
/// keep their shape and keys.
pub open spec fn spec_interp_ok(
    v: TemplateValue,
    out: TemplateValue,
    c: Seq<char>,
    st: Option<Seq<char>>,
    ct: Option<Seq<char>>,
) -> bool
    decreases v,
{
    match v {
        TemplateValue::Str(s) => out matches TemplateValue::Str(o) && rhai_eval_of(c, st, ct, s@)
            == Some(o@),
        TemplateValue::Arr(items) => out matches TemplateValue::Arr(outs) && items@.len()
            == outs@.len() && (forall|i: int|
            0 <= i < items@.len() ==> spec_interp_ok(#[trigger] items@[i], outs@[i], c, st, ct)),
        TemplateValue::Obj(fields) => out matches TemplateValue::Obj(outs) && fields@.len()
            == outs@.len() && (forall|i: int|
            0 <= i < fields@.len() ==> (#[trigger] outs@[i]).0@ == fields@[i].0@
                && spec_interp_ok(fields@[i].1, outs@[i].1, c, st, ct)),
        TemplateValue::Null => out matches TemplateValue::Null,
        TemplateValue::Bool(b) => out matches TemplateValue::Bool(ob) && ob == b,
        TemplateValue::Int(n) => out matches TemplateValue::Int(on) && on == n,
        TemplateValue::Num(s) => out matches TemplateValue::Num(os) && os@ == s@,
    }
}


/// A successfully interpolated tree had no failing leaf.
pub proof fn lemma_interp_ok_not_fails(
    v: TemplateValue,
    out: TemplateValue,
    c: Seq<char>,
    st: Option<Seq<char>>,
    ct: Option<Seq<char>>,
)
    requires
        spec_interp_ok(v, out, c, st, ct),
    ensures
        !spec_interp_fails(v, c, st, ct),
    decreases v,
{
    match v {
        TemplateValue::Arr(items) => {
            let outs = out->Arr_0;
            assert forall|i: int| 0 <= i < items@.len() implies !spec_interp_fails(
                #[trigger] items@[i],
                c,
                st,
                ct,
            ) by {
                vstd::std_specs::vec::axiom_vec_index_decreases(items, i);
                lemma_interp_ok_not_fails(items@[i], outs@[i], c, st, ct);
            }
        },
        TemplateValue::Obj(fields) => {
            let outs = out->Obj_0;
            assert forall|i: int| 0 <= i < fields@.len() implies !spec_interp_fails(
                (#[trigger] fields@[i]).1,
                c,
                st,
                ct,
            ) by {
                vstd::std_specs::vec::axiom_vec_index_decreases(fields, i);
                lemma_interp_ok_not_fails(fields@[i].1, outs@[i].1, c, st, ct);
            }
        },
        _ => {},
    }
}

/// Walks the discovery payload, evaluating every string leaf as an
/// expression; arrays and objects are recursed into, other leaves pass
/// through unchanged. Fails exactly when some leaf fails to evaluate.
#[verifier::loop_isolation(false)]
pub fn interpolate_value(
    v: &TemplateValue,
    ctx_json: &String,
    state_topic: Option<&String>,
    config_topic: Option<&String>,
) -> (r: Result<TemplateValue, CollectorError>)
    ensures
        r is Ok <==> !spec_interp_fails(
            *v,
            ctx_json@,
            spec_opt_view(state_topic),
            spec_opt_view(config_topic),
        ),
        r matches Ok(t) ==> spec_interp_ok(
            *v,
            t,
            ctx_json@,
            spec_opt_view(state_topic),
            spec_opt_view(config_topic),
        ),
        r matches Err(e) ==> e matches CollectorError::EvalError(_, _),
    decreases *v,
{
    match v {
        TemplateValue::Null => Ok(TemplateValue::Null),
        TemplateValue::Bool(b) => Ok(TemplateValue::Bool(*b)),
        TemplateValue::Int(n) => Ok(TemplateValue::Int(*n)),
        TemplateValue::Num(s) => Ok(TemplateValue::Num(s.clone())),
        TemplateValue::Str(s) => {
            match rhai_eval(ctx_json.as_str(), state_topic, config_topic, s.as_str()) {
                Ok(rendered) => Ok(TemplateValue::Str(rendered)),
                Err(m) => Err(CollectorError::EvalError(s.clone(), m)),
            }
        },
        TemplateValue::Arr(items) => {
            let mut outs: Vec<TemplateValue> = Vec::new();
            let mut i: usize = 0;
            while i < items.len()
                invariant
                    i <= items@.len(),
                    outs@.len() == i,
                    forall|j: int|
                        0 <= j < i ==> spec_interp_ok(
                            #[trigger] items@[j],
                            outs@[j],
                            ctx_json@,
                            spec_opt_view(state_topic),
                            spec_opt_view(config_topic),
                        ),
                decreases items@.len() - i,
            {
                proof {
                    vstd::std_specs::vec::axiom_vec_index_decreases(*items, i as int);
                }
                match interpolate_value(&items[i], ctx_json, state_topic, config_topic) {
                    Ok(t) => {
                        outs.push(t);
                    },
                    Err(e) => {
                        proof {
                            assert(spec_interp_fails(
                                items@[i as int],
                                ctx_json@,
                                spec_opt_view(state_topic),
                                spec_opt_view(config_topic),
                            ));
                        }
                        return Err(e);
                    },
                }
                i = i + 1;
            }
            proof {
                assert forall|j: int| 0 <= j < items@.len() implies !spec_interp_fails(
                    #[trigger] items@[j],
                    ctx_json@,
                    spec_opt_view(state_topic),
                    spec_opt_view(config_topic),
                ) by {
                    lemma_interp_ok_not_fails(
                        items@[j],
                        outs@[j],
                        ctx_json@,
                        spec_opt_view(state_topic),
                        spec_opt_view(config_topic),
                    );
                }
            }
            Ok(TemplateValue::Arr(outs))
        },
        TemplateValue::Obj(fields) => {
            let mut outs: Vec<(String, TemplateValue)> = Vec::new();
            let mut i: usize = 0;
            while i < fields.len()
                invariant
                    i <= fields@.len(),
                    outs@.len() == i,
                    forall|j: int|
                        0 <= j < i ==> (#[trigger] outs@[j]).0@ == fields@[j].0@
                            && spec_interp_ok(
                            fields@[j].1,
                            outs@[j].1,
                            ctx_json@,
                            spec_opt_view(state_topic),
                            spec_opt_view(config_topic),
                        ),
                decreases fields@.len() - i,
            {
                proof {
                    vstd::std_specs::vec::axiom_vec_index_decreases(*fields, i as int);
                }
                match interpolate_value(&fields[i].1, ctx_json, state_topic, config_topic) {
                    Ok(t) => {
                        outs.push((fields[i].0.clone(), t));
                    },
                    Err(e) => {
                        proof {
                            assert(spec_interp_fails(
                                fields@[i as int].1,
                                ctx_json@,
                                spec_opt_view(state_topic),
                                spec_opt_view(config_topic),
                            ));
                        }
                        return Err(e);
                    },
                }
                i = i + 1;
            }
            proof {
                assert forall|j: int| 0 <= j < fields@.len() implies !spec_interp_fails(
                    (#[trigger] fields@[j]).1,
                    ctx_json@,
                    spec_opt_view(state_topic),
                    spec_opt_view(config_topic),
                ) by {
                    lemma_interp_ok_not_fails(
                        fields@[j].1,
                        outs@[j].1,
                        ctx_json@,
                        spec_opt_view(state_topic),
                        spec_opt_view(config_topic),
                    );
                }
            }
            Ok(TemplateValue::Obj(outs))
        },
    }
}

/// What the MQTT publisher sends to announce one characteristic.
#[derive(Debug, PartialEq)]
pub struct MqttDiscoveryPayload {
    pub config_topic: String,
    pub retain: bool,
    pub qos: Qos,
    pub discovery_config: Option<TemplateValue>,
}

/// Renders the state topic of one payload's characteristic under its
/// evaluation context.
pub fn interpolate_state_topic(
    topic: &str,
    fqcn: Fqcn,
    conf: &CharacteristicConfig,
) -> (r: Result<String, CollectorError>)
    ensures
        r matches Ok(s) ==> rhai_eval_of(
            spec_ctx_json(
                fqcn,
                match conf.spec_service_name() {
                    Some(v) => Some(v@),
                    None => None,
                },
                match conf.spec_name() {
                    Some(v) => Some(v@),
                    None => None,
                },
                None,
            ),
            None,
            None,
            topic@,
        ) == Some(s@),
        r is Err <==> rhai_eval_of(
            spec_ctx_json(
                fqcn,
                match conf.spec_service_name() {
                    Some(v) => Some(v@),
                    None => None,
                },
                match conf.spec_name() {
                    Some(v) => Some(v@),
                    None => None,
                },
                None,
            ),
            None,
            None,
            topic@,
        ) is None,
        r matches Err(e) ==> e matches CollectorError::EvalError(_, _),
{
    let ctx = build_context_json(fqcn, conf.service_name(), conf.name(), &None);
    match rhai_eval(ctx.as_str(), None, None, topic) {
        Ok(s) => Ok(s),
        Err(m) => Err(
            CollectorError::EvalError(
                <String as vstd::string::StringExecFns>::from_str(topic),
                m,
            ),
        ),
    }
}


/// The evaluation context one discovery announcement runs under.
pub open spec fn spec_discovery_ctx(request: ConnectPeripheralRequest) -> Seq<char> {
    spec_ctx_json(
        request.fqcn,
        match request.conf.spec_service_name() {
            Some(v) => Some(v@),
            None => None,
        },
        match request.conf.spec_name() {
            Some(v) => Some(v@),
            None => None,
        },
        match request.peripheral_key.name {
            Some(v) => Some(v@),
            None => None,
        },
    )
}

/// Whether rendering the announcement fails: the state topic, the config
/// topic, or some leaf of the free-form payload does not evaluate.
pub open spec fn spec_discovery_fails(
    request: ConnectPeripheralRequest,
    mc: crate::conf::PublishMqttConfigDto,
    d: crate::conf::DiscoverySettings,
) -> bool {
    let ctx = spec_discovery_ctx(request);
    match rhai_eval_of(ctx, None, None, mc.state_topic@) {
        Some(st) => match rhai_eval_of(ctx, None, None, d.config_topic@) {
            Some(ct) => spec_interp_fails(d.remainder, ctx, Some(st), Some(ct)),
            None => true,
        },
        None => true,
    }
}

/// With the MQTT and discovery sections present, the announcement is
/// rendered exactly when every expression evaluates; a failure surfaces as
/// an evaluation error.
pub open spec fn spec_discovery_result_ok(
    r: Result<MqttDiscoveryPayload, CollectorError>,
    request: ConnectPeripheralRequest,
    mc: crate::conf::PublishMqttConfigDto,
    d: crate::conf::DiscoverySettings,
) -> bool {
    (r is Ok <==> !spec_discovery_fails(request, mc, d)) && (r matches Err(e) ==> e
        matches CollectorError::EvalError(_, _))
}

/// Renders one characteristic's discovery announcement: the state and
/// config topics are evaluated under the context, both are injected back
/// into the scope, and every string of the user's free-form payload is
/// evaluated under that extended scope. Fails with `NoMqttConfig` when the
/// characteristic publishes no MQTT, with `NoMqttDiscoveryConfig` when it
/// has no discovery block; retain and QoS fall back from the discovery
/// block to the MQTT section.
pub fn interpolate_discovery(request: &ConnectPeripheralRequest) -> (r: Result<
    MqttDiscoveryPayload,
    CollectorError,
>)
    ensures
        request.conf.spec_publish_mqtt() is None <==> r == Err::<MqttDiscoveryPayload, _>(
            CollectorError::NoMqttConfig,
        ),
        request.conf.spec_publish_mqtt() matches Some(mc) ==> (mc.discovery is None <==> r
            == Err::<MqttDiscoveryPayload, _>(CollectorError::NoMqttDiscoveryConfig)),
        request.conf.spec_publish_mqtt() matches Some(mc) ==> (mc.discovery matches Some(d)
            ==> spec_discovery_result_ok(r, *request, mc, d)),
        r matches Ok(p) ==> request.conf.spec_publish_mqtt() matches Some(mc)
            && mc.discovery matches Some(d) && {
            let ctx = spec_ctx_json(
                request.fqcn,
                match request.conf.spec_service_name() {
                    Some(v) => Some(v@),
                    None => None,
                },
                match request.conf.spec_name() {
                    Some(v) => Some(v@),
                    None => None,
                },
                match request.peripheral_key.name {
                    Some(v) => Some(v@),
                    None => None,
                },
            );
            &&& rhai_eval_of(ctx, None, None, mc.state_topic@) matches Some(st)
            &&& rhai_eval_of(ctx, None, None, d.config_topic@) matches Some(ct)
            &&& p.config_topic@ == ct
            &&& p.retain == (match d.retain {
                Some(b) => b,
                None => mc.retain,
            })
            &&& p.qos == (match d.qos {
                Some(q) => q,
                None => mc.qos,
            })
            &&& p.discovery_config matches Some(t) && spec_interp_ok(
                d.remainder,
                t,
                ctx,
                Some(st),
                Some(ct),
            )
        },
{
    let mc = match request.conf.publish_mqtt() {
        Some(mc) => mc,
        None => {
            return Err(CollectorError::NoMqttConfig);
        },
    };
    let d = match &mc.discovery {
        Some(d) => d,
        None => {
            return Err(CollectorError::NoMqttDiscoveryConfig);
        },
    };
    let name_opt: Option<String> = match &request.peripheral_key.name {
        Some(n) => Some(n.clone()),
        None => None,
    };
    let ctx = build_context_json(
        request.fqcn,
        request.conf.service_name(),
        request.conf.name(),
        &name_opt,
    );
    let state_topic = match rhai_eval(ctx.as_str(), None, None, mc.state_topic.as_str()) {
        Ok(s) => s,
        Err(m) => {
            return Err(CollectorError::EvalError(mc.state_topic.clone(), m));
        },
    };
    let config_topic = match rhai_eval(ctx.as_str(), None, None, d.config_topic.as_str()) {
        Ok(s) => s,
        Err(m) => {
            return Err(CollectorError::EvalError(d.config_topic.clone(), m));
        },
    };
    let rendered = match interpolate_value(
        &d.remainder,
        &ctx,
        Some(&state_topic),
        Some(&config_topic),
    ) {
        Ok(t) => t,
        Err(e) => {
            return Err(e);
        },
    };
    let retain = match d.retain {
        Some(b) => b,
        None => mc.retain,
    };
    let qos = match d.qos {
        Some(q) => q,
        None => mc.qos,
    };
    Ok(
        MqttDiscoveryPayload {
            config_topic,
            retain,
            qos,
            discovery_config: Some(rendered),
        },
    )
}

} // verus!
