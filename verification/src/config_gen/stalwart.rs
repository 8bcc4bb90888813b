//! A starting-point stalwart-mail TOML config covering the mail domain and
//! the account list.
use vstd::prelude::*;

use crate::state::{MailAccount, PersistedState};
use crate::text::owned;
use crate::toml_doc::{
    array_value, contents_all, empty_table, new_table, render, rendered_or_empty, string_value, table_insert,
    table_value, value_contents, TomlDoc,
};

verus! {

/// The directory principal of one mail account.
pub open spec fn principal_doc(acct: MailAccount) -> TomlDoc {
    TomlDoc::Table(
        empty_table().insert("type"@, TomlDoc::Str("individual"@)).insert(
            "name"@,
            TomlDoc::Str(acct.address@),
        ).insert("description"@, TomlDoc::Str(acct.display_name@)),
    )
}

/// The principals of the accounts, in order.
pub open spec fn principal_docs(accounts: Seq<MailAccount>) -> Seq<TomlDoc>
    decreases accounts.len(),
{
    if accounts.len() == 0 {
        Seq::empty()
    } else {
        principal_docs(accounts.drop_last()).push(principal_doc(accounts.last()))
    }
}

/// The whole stalwart document: `server.hostname` when a domain is set, and
/// an internal directory holding the principals when there are accounts.
pub open spec fn stalwart_doc(state: PersistedState) -> TomlDoc {
    let t1 = match state.mail.domain {
        Some(d) => empty_table().insert(
            "server"@,
            TomlDoc::Table(empty_table().insert("hostname"@, TomlDoc::Str(d@))),
        ),
        None => empty_table(),
    };
    let principals = principal_docs(state.mail.accounts@);
    let dir0 = empty_table().insert("type"@, TomlDoc::Str("internal"@));
    let dir1 = if principals.len() > 0 {
        dir0.insert("principals"@, TomlDoc::Array(principals))
    } else {
        dir0
    };
    let directory = empty_table().insert("internal"@, TomlDoc::Table(dir1));
    TomlDoc::Table(t1.insert("directory"@, TomlDoc::Table(directory)))
}

/// The document names the mail host exactly when a mail domain is set,
/// whatever the account list holds: `server.hostname` is the domain, and
/// the internal directory is always present.
pub proof fn lemma_stalwart_hostname(state: PersistedState)
    ensures
        stalwart_doc(state) is Table,
        stalwart_doc(state)->Table_0.dom().contains("server"@) <==> state.mail.domain is Some,
        state.mail.domain is Some ==> stalwart_doc(state)->Table_0["server"@] == TomlDoc::Table(
            empty_table().insert("hostname"@, TomlDoc::Str(state.mail.domain->0@)),
        ),
        stalwart_doc(state)->Table_0.dom().contains("directory"@),
{
    reveal_strlit("server");
    reveal_strlit("directory");
    reveal_strlit("hostname");
    reveal_strlit("internal");
    reveal_strlit("type");
    reveal_strlit("principals");
    assert("server"@ != "directory"@) by {
        assert("server"@.len() != "directory"@.len());
    }
}

fn principal_value(acct: &MailAccount) -> (v: toml::Value)
    ensures
        value_contents(v) == principal_doc(*acct),
{
    let mut p = new_table();
    table_insert(&mut p, owned("type"), string_value(owned("individual")));
    table_insert(&mut p, owned("name"), string_value(acct.address.clone()));
    table_insert(&mut p, owned("description"), string_value(acct.display_name.clone()));
    table_value(p)
}

/// The stalwart document for the current mail settings.
pub fn document(state: &PersistedState) -> (v: toml::Value)
    ensures
        value_contents(v) == stalwart_doc(*state),
{
    let mut doc = new_table();
    if let Some(domain) = &state.mail.domain {
        let mut server = new_table();
        table_insert(&mut server, owned("hostname"), string_value(domain.clone()));
        table_insert(&mut doc, owned("server"), table_value(server));
    }

    let mut internal_dir = new_table();
    table_insert(&mut internal_dir, owned("type"), string_value(owned("internal")));
    let accounts = &state.mail.accounts;
    let mut principals: Vec<toml::Value> = Vec::new();
    assert(contents_all(principals@) =~= principal_docs(accounts@.take(0)));
    let n = accounts.len();
    for i in 0..n
        invariant
            n == accounts@.len(),
            contents_all(principals@) == principal_docs(accounts@.take(i as int)),
    {
        let p = principal_value(&accounts[i]);
        let ghost before = contents_all(principals@);
        let ghost d = value_contents(p);
        principals.push(p);
        assert(contents_all(principals@) =~= before.push(d));
        assert(accounts@.take(i + 1).drop_last() =~= accounts@.take(i as int));
    }
    assert(accounts@.take(n as int) =~= accounts@);
    if principals.len() > 0 {
        table_insert(&mut internal_dir, owned("principals"), array_value(principals));
    }

    let mut directory = new_table();
    table_insert(&mut directory, owned("internal"), table_value(internal_dir));
    table_insert(&mut doc, owned("directory"), table_value(directory));
    table_value(doc)
}

/// Generates stalwart's TOML config from the mail settings; the empty string
/// where the serializer reports an error.
pub fn generate(state: &PersistedState) -> (s: String)
    ensures
        s@ == rendered_or_empty(stalwart_doc(*state)),
{
    let doc = document(state);
    render(&doc)
}

} // verus!
