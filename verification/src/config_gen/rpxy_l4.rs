//! rpxy-l4's TOML config: the raw TCP/UDP forwarding rules and the blocked
//! addresses of the security settings.
use vstd::prelude::*;

use crate::config_gen::rpxy::loopback;
use crate::state::{L4Protocol, L4Rule, PersistedState};
use crate::text::{owned, push_dec};
use crate::toml_doc::{
    array_value, contents_all, empty_table, integer_value, new_table, render, rendered_or_empty, string_value,
    table_insert, table_value, value_contents, TomlDoc,
};

verus! {

/// The table of one forwarding rule.
pub open spec fn rule_doc(rule: L4Rule) -> TomlDoc {
    TomlDoc::Table(
        empty_table().insert("name"@, TomlDoc::Str(rule.name@)).insert(
            "listen_port"@,
            TomlDoc::Integer(rule.listen_port as int),
        ).insert("upstream"@, TomlDoc::Str(loopback(rule.upstream_port))),
    )
}

/// The tables of the rules with protocol `p`, in order.
pub open spec fn rules_for(rules: Seq<L4Rule>, p: L4Protocol) -> Seq<TomlDoc>
    decreases rules.len(),
{
    if rules.len() == 0 {
        Seq::empty()
    } else {
        let rest = rules_for(rules.drop_last(), p);
        if rules.last().protocol == p {
            rest.push(rule_doc(rules.last()))
        } else {
            rest
        }
    }
}

/// The blocked addresses as TOML strings.
pub open spec fn ip_docs(ips: Seq<String>) -> Seq<TomlDoc>
    decreases ips.len(),
{
    if ips.len() == 0 {
        Seq::empty()
    } else {
        ip_docs(ips.drop_last()).push(TomlDoc::Str(ips.last()@))
    }
}

/// The whole rpxy-l4 document: `tcp`, `udp` and `blocked_ips`, each present
/// only when it has an entry.
pub open spec fn l4_doc(state: PersistedState) -> TomlDoc {
    let rules = state.security.l4_rules@;
    let tcp = rules_for(rules, L4Protocol::Tcp);
    let udp = rules_for(rules, L4Protocol::Udp);
    let t0 = empty_table();
    let t1 = if tcp.len() > 0 {
        t0.insert("tcp"@, TomlDoc::Array(tcp))
    } else {
        t0
    };
    let t2 = if udp.len() > 0 {
        t1.insert("udp"@, TomlDoc::Array(udp))
    } else {
        t1
    };
    let ips = state.security.blocked_ips@;
    TomlDoc::Table(
        if ips.len() > 0 {
            t2.insert("blocked_ips"@, TomlDoc::Array(ip_docs(ips)))
        } else {
            t2
        },
    )
}

/// A protocol's section has no entry exactly when no rule uses that
/// protocol, which is when the document leaves the section out.
pub proof fn lemma_rules_for_empty(rules: Seq<L4Rule>, p: L4Protocol)
    ensures
        rules_for(rules, p).len() == 0 <==> forall|i: int|
            0 <= i < rules.len() ==> #[trigger] rules[i].protocol != p,
    decreases rules.len(),
{
    if rules.len() > 0 {
        lemma_rules_for_empty(rules.drop_last(), p);
        assert forall|i: int| 0 <= i < rules.len() - 1 implies #[trigger] rules[i] == rules.drop_last()[i] by {}
    }
}

/// The `tcp` and `udp` sections together hold one entry per rule.
pub proof fn lemma_rules_partitioned(rules: Seq<L4Rule>)
    ensures
        rules_for(rules, L4Protocol::Tcp).len() + rules_for(rules, L4Protocol::Udp).len()
            == rules.len(),
    decreases rules.len(),
{
    if rules.len() > 0 {
        lemma_rules_partitioned(rules.drop_last());
    }
}

fn rule_value(rule: &L4Rule) -> (v: toml::Value)
    ensures
        value_contents(v) == rule_doc(*rule),
{
    let mut t = new_table();
    table_insert(&mut t, owned("name"), string_value(rule.name.clone()));
    table_insert(&mut t, owned("listen_port"), integer_value(rule.listen_port as i64));
    let mut upstream = owned("127.0.0.1:");
    push_dec(&mut upstream, rule.upstream_port as u64);
    table_insert(&mut t, owned("upstream"), string_value(upstream));
    table_value(t)
}

/// Appends a value to an array under construction.
fn push_value(items: &mut Vec<toml::Value>, v: toml::Value)
    ensures
        contents_all(final(items)@) == contents_all(old(items)@).push(value_contents(v)),
{
    let ghost d = value_contents(v);
    items.push(v);
    assert(contents_all(items@) =~= contents_all(old(items)@).push(d));
}

/// The rpxy-l4 document for the current security settings.
pub fn document(state: &PersistedState) -> (v: toml::Value)
    ensures
        value_contents(v) == l4_doc(*state),
{
    let rules = &state.security.l4_rules;
    let mut tcp_rules: Vec<toml::Value> = Vec::new();
    let mut udp_rules: Vec<toml::Value> = Vec::new();
    assert(contents_all(tcp_rules@) =~= Seq::<TomlDoc>::empty());
    assert(contents_all(udp_rules@) =~= Seq::<TomlDoc>::empty());
    let n = rules.len();
    for i in 0..n
        invariant
            n == rules@.len(),
            contents_all(tcp_rules@) == rules_for(rules@.take(i as int), L4Protocol::Tcp),
            contents_all(udp_rules@) == rules_for(rules@.take(i as int), L4Protocol::Udp),
    {
        let rule = &rules[i];
        let t = rule_value(rule);
        match rule.protocol {
            L4Protocol::Tcp => push_value(&mut tcp_rules, t),
            L4Protocol::Udp => push_value(&mut udp_rules, t),
        }
        assert(rules@.take(i + 1).drop_last() =~= rules@.take(i as int));
    }
    assert(rules@.take(n as int) =~= rules@);

    let mut doc = new_table();
    if tcp_rules.len() > 0 {
        table_insert(&mut doc, owned("tcp"), array_value(tcp_rules));
    }
    if udp_rules.len() > 0 {
        table_insert(&mut doc, owned("udp"), array_value(udp_rules));
    }
    let ips = &state.security.blocked_ips;
    if ips.len() > 0 {
        let mut arr: Vec<toml::Value> = Vec::new();
        assert(contents_all(arr@) =~= ip_docs(ips@.take(0)));
        let m = ips.len();
        for j in 0..m
            invariant
                m == ips@.len(),
                contents_all(arr@) == ip_docs(ips@.take(j as int)),
        {
            push_value(&mut arr, string_value(ips[j].clone()));
            assert(ips@.take(j + 1).drop_last() =~= ips@.take(j as int));
        }
        assert(ips@.take(m as int) =~= ips@);
        table_insert(&mut doc, owned("blocked_ips"), array_value(arr));
    }
    table_value(doc)
}

/// Generates rpxy-l4's TOML config from the security settings; the empty
/// string where the serializer reports an error.
pub fn generate(state: &PersistedState) -> (s: String)
    ensures
        s@ == rendered_or_empty(l4_doc(*state)),
{
    let doc = document(state);
    render(&doc)
}

} // verus!
