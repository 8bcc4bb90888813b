//! The logic of the UI's forms: how configs fetched from the daemon fill the
//! form fields, and how the fields are read back into what is saved.
use vstd::prelude::*;
use vstd::string::*;

use crate::ids::{is_uuid_v4, new_uuid, uuid_string, uuid_text};
use crate::state::opt_view;
use crate::text::{
    csv_items, is_ws, join, join_strings, lemma_split_commas_nonempty, non_empty_only, owned,
    push_str, split_commas, str_eq, trim, trim_all, trim_end, trim_start, trimmed, views,
};
use crate::ui::dto::{
    Dynv6ConfigDto, Dynv6StatusDto, InterfaceDto, L4RuleDto, MailAccountDto, MailConfigDto,
    NewRouteDto, RouteDto, RouteTargetDto, SecurityConfigDto,
};

verus! {

/// The text of an optional value, empty when there is none.
pub open spec fn unwrap_or_empty(o: Option<Seq<char>>) -> Seq<char> {
    match o {
        Some(s) => s,
        None => Seq::empty(),
    }
}

/// A form field read back as an optional value: empty means none.
pub open spec fn non_empty_spec(s: Seq<char>) -> Option<Seq<char>> {
    if s.len() == 0 {
        None
    } else {
        Some(s)
    }
}

/// A form field read back as an optional value: empty means none.
pub fn non_empty(s: String) -> (r: Option<String>)
    ensures
        opt_view(r) == non_empty_spec(s@),
        r matches Some(t) ==> t == s,
{
    if s.as_str().is_empty() {
        None
    } else {
        Some(s)
    }
}

/// The text of an optional value, empty when there is none.
pub fn text_or_empty(o: &Option<String>) -> (s: String)
    ensures
        s@ == unwrap_or_empty(opt_view(*o)),
{
    match o {
        Some(t) => t.clone(),
        None => String::new(),
    }
}

proof fn lemma_trim_all_push(p: Seq<Seq<char>>)
    requires
        p.len() > 0,
    ensures
        trim_all(p) == trim_all(p.drop_last()).push(trim(p.last())),
{
    assert(trim_all(p) =~= trim_all(p.drop_last()).push(trim(p.last())));
}

/// The entries of a comma-separated text: split on commas, each piece
/// trimmed of whitespace, empty pieces dropped.
pub fn split_csv(text: &str) -> (v: Vec<String>)
    ensures
        views(v@) == csv_items(text@),
{
    let mut out: Vec<String> = Vec::new();
    let mut cur: Vec<char> = Vec::new();
    proof {
        assert(text@.take(0) =~= Seq::<char>::empty());
        assert(split_commas(Seq::<char>::empty()).drop_last() =~= Seq::<Seq<char>>::empty());
        assert(trim_all(Seq::<Seq<char>>::empty()) =~= Seq::<Seq<char>>::empty());
        assert(views(out@) =~= Seq::<Seq<char>>::empty());
    }
    for c in it: text.chars()
        invariant
            it.seq() == text@,
            views(out@) == non_empty_only(
                trim_all(split_commas(text@.take(it.index() as int)).drop_last()),
            ),
            cur@ == split_commas(text@.take(it.index() as int)).last(),
    {
        let ghost i = it.index() as int;
        let ghost p = split_commas(text@.take(i));
        proof {
            lemma_split_commas_nonempty(text@.take(i));
            assert(text@.take(i + 1).drop_last() =~= text@.take(i));
            assert(text@.take(i + 1).last() == c);
        }
        if c == ',' {
            let t = trimmed(&cur);
            let ghost before = views(out@);
            if !t.as_str().is_empty() {
                out.push(t);
            }
            proof {
                let p2 = split_commas(text@.take(i + 1));
                assert(p2 == p.push(Seq::empty()));
                assert(p2.drop_last() =~= p);
                lemma_trim_all_push(p);
                let q = trim_all(p);
                assert(q.drop_last() =~= trim_all(p.drop_last()));
                assert(q.last() == t@);
                if t@.len() > 0 {
                    assert(views(out@) =~= before.push(t@));
                } else {
                    assert(views(out@) =~= before);
                }
                assert(views(out@) == non_empty_only(q));
                assert(views(out@) == non_empty_only(trim_all(p2.drop_last())));
            }
            cur = Vec::new();
            assert(cur@ =~= Seq::<char>::empty());
        } else {
            cur.push(c);
            proof {
                let p2 = split_commas(text@.take(i + 1));
                assert(p2 == p.update(p.len() - 1, p.last().push(c)));
                assert(p2.drop_last() =~= p.drop_last());
            }
        }
    }
    let ghost p = split_commas(text@);
    proof {
        assert(text@.take(text@.len() as int) =~= text@);
        lemma_split_commas_nonempty(text@);
        lemma_trim_all_push(p);
    }
    let t = trimmed(&cur);
    let ghost before = views(out@);
    if !t.as_str().is_empty() {
        out.push(t);
    }
    proof {
        let q = trim_all(p);
        assert(q.drop_last() =~= trim_all(p.drop_last()));
        assert(q.last() == t@);
        if t@.len() > 0 {
            assert(views(out@) =~= before.push(t@));
        } else {
            assert(views(out@) =~= before);
        }
        assert(views(out@) == non_empty_only(q));
    }
    out
}

/// An entry that survives being written into a comma-separated field and
/// read back: not empty, no comma, no whitespace at either end.
pub open spec fn is_clean_entry(x: Seq<char>) -> bool {
    &&& x.len() > 0
    &&& forall|i: int| 0 <= i < x.len() ==> #[trigger] x[i] != ','
    &&& !is_ws(x[0])
    &&& !is_ws(x.last())
}

proof fn lemma_split_append_plain(s: Seq<char>, t: Seq<char>)
    requires
        forall|i: int| 0 <= i < t.len() ==> #[trigger] t[i] != ',',
    ensures
        split_commas(s).len() >= 1,
        split_commas(s + t) == split_commas(s).update(
            split_commas(s).len() - 1,
            split_commas(s).last() + t,
        ),
    decreases t.len(),
{
    lemma_split_commas_nonempty(s);
    let p = split_commas(s);
    if t.len() == 0 {
        assert(s + t =~= s);
        assert(p.last() + t =~= p.last());
        assert(p.update(p.len() - 1, p.last() + t) =~= p);
    } else {
        let t0 = t.drop_last();
        assert forall|i: int| 0 <= i < t0.len() implies #[trigger] t0[i] != ',' by {
            assert(t0[i] == t[i]);
        }
        lemma_split_append_plain(s, t0);
        assert((s + t).drop_last() =~= s + t0);
        assert((s + t).last() == t.last());
        let q = split_commas(s + t0);
        assert(q.last() == p.last() + t0);
        assert(q.last().push(t.last()) =~= p.last() + t);
        assert(q.update(q.len() - 1, q.last().push(t.last())) =~= p.update(
            p.len() - 1,
            p.last() + t,
        ));
    }
}

/// The pieces that splitting a comma-and-space joined list yields: the first
/// entry, then each further entry behind a space.
pub open spec fn joined_pieces(xs: Seq<Seq<char>>) -> Seq<Seq<char>> {
    seq![xs[0]] + xs.drop_first().map_values(|x: Seq<char>| seq![' '] + x)
}

proof fn lemma_split_joined(xs: Seq<Seq<char>>)
    requires
        xs.len() >= 1,
        forall|k: int| 0 <= k < xs.len() ==> is_clean_entry(#[trigger] xs[k]),
    ensures
        split_commas(join(xs, ", "@)) == joined_pieces(xs),
    decreases xs.len(),
{
    reveal_strlit(", ");
    if xs.len() == 1 {
        assert(join(xs, ", "@) == xs[0]);
        lemma_split_append_plain(Seq::empty(), xs[0]);
        assert(Seq::<char>::empty() + xs[0] =~= xs[0]);
        assert(split_commas(Seq::<char>::empty()) == seq![Seq::<char>::empty()]);
        assert(Seq::<char>::empty() + xs[0] =~= xs[0]);
        assert(split_commas(xs[0]) =~= joined_pieces(xs));
    } else {
        let init = xs.drop_last();
        assert forall|k: int| 0 <= k < init.len() implies is_clean_entry(#[trigger] init[k]) by {
            assert(init[k] == xs[k]);
        }
        lemma_split_joined(init);
        let j = join(init, ", "@);
        let x = xs.last();
        assert(is_clean_entry(xs[xs.len() - 1]));
        assert(join(xs, ", "@) == j + ", "@ + x);
        let sp = seq![' '] + x;
        assert(j + ", "@ + x =~= j.push(',') + sp);
        assert forall|i: int| 0 <= i < sp.len() implies #[trigger] sp[i] != ',' by {
            if i > 0 {
                assert(sp[i] == x[i - 1]);
            }
        }
        lemma_split_append_plain(j.push(','), sp);
        assert(j.push(',').drop_last() =~= j);
        let p = split_commas(j);
        assert(split_commas(j.push(',')) == p.push(Seq::empty()));
        assert(Seq::<char>::empty() + sp =~= sp);
        assert(split_commas(j.push(',') + sp) =~= p.push(sp));
        assert(p.push(sp) =~= joined_pieces(xs)) by {
            assert(p =~= joined_pieces(init));
            assert forall|k: int| 0 <= k < xs.len() implies #[trigger] joined_pieces(xs)[k]
                == p.push(sp)[k] by {
                if k > 0 && k < xs.len() - 1 {
                    assert(xs.drop_first()[k - 1] == init.drop_first()[k - 1]);
                }
            }
        }
    }
}

proof fn lemma_trim_clean(x: Seq<char>)
    requires
        is_clean_entry(x),
    ensures
        trim(x) == x,
        trim(seq![' '] + x) == x,
{
    assert(!is_ws(x[0]));
    assert(trim_start(x) == x);
    assert(trim_end(x) == x);
    let sp = seq![' '] + x;
    assert(is_ws(sp[0]));
    assert(sp.drop_first() =~= x);
    assert(trim_start(sp) == trim_start(x));
}

proof fn lemma_non_empty_only_all(xs: Seq<Seq<char>>)
    requires
        forall|k: int| 0 <= k < xs.len() ==> (#[trigger] xs[k]).len() > 0,
    ensures
        non_empty_only(xs) == xs,
    decreases xs.len(),
{
    if xs.len() > 0 {
        let init = xs.drop_last();
        assert forall|k: int| 0 <= k < init.len() implies (#[trigger] init[k]).len() > 0 by {
            assert(init[k] == xs[k]);
        }
        lemma_non_empty_only_all(init);
        assert(xs[xs.len() - 1].len() > 0);
        assert(init.push(xs.last()) =~= xs);
    }
}

/// A list of clean entries written into a comma-separated field (joined
/// with ", ") reads back as the same list.
pub proof fn lemma_csv_roundtrip(xs: Seq<Seq<char>>)
    requires
        forall|k: int| 0 <= k < xs.len() ==> is_clean_entry(#[trigger] xs[k]),
    ensures
        csv_items(join(xs, ", "@)) == xs,
{
    if xs.len() == 0 {
        assert(join(xs, ", "@) == Seq::<char>::empty());
        assert(split_commas(Seq::<char>::empty()) == seq![Seq::<char>::empty()]);
        assert(trim_end(trim_start(Seq::<char>::empty())) == Seq::<char>::empty());
        assert(trim_all(seq![Seq::<char>::empty()]) =~= seq![Seq::<char>::empty()]);
        assert(seq![Seq::<char>::empty()].drop_last() =~= Seq::<Seq<char>>::empty());
        assert(non_empty_only(Seq::<Seq<char>>::empty()) == Seq::<Seq<char>>::empty());
        assert(seq![Seq::<char>::empty()].last().len() == 0);
        assert(non_empty_only(seq![Seq::<char>::empty()]) == Seq::<Seq<char>>::empty());
        assert(xs =~= Seq::<Seq<char>>::empty());
    } else {
        lemma_split_joined(xs);
        let pieces = joined_pieces(xs);
        assert(pieces.len() == xs.len());
        assert(trim_all(pieces) =~= xs) by {
            assert forall|k: int| 0 <= k < xs.len() implies #[trigger] trim_all(pieces)[k]
                == xs[k] by {
                lemma_trim_clean(xs[k]);
                if k > 0 {
                    assert(pieces[k] == seq![' '] + xs[k]);
                }
            }
        }
        assert forall|k: int| 0 <= k < xs.len() implies (#[trigger] xs[k]).len() > 0 by {
            assert(is_clean_entry(xs[k]));
        }
        lemma_non_empty_only_all(xs);
        assert(csv_items(join(xs, ", "@)) == non_empty_only(trim_all(pieces)));
    }
}

/// Whether a piece of text holds no comma.
pub open spec fn comma_free(x: Seq<char>) -> bool {
    forall|i: int| 0 <= i < x.len() ==> #[trigger] x[i] != ','
}

proof fn lemma_split_comma_free(s: Seq<char>)
    ensures
        forall|k: int|
            0 <= k < split_commas(s).len() ==> comma_free(#[trigger] split_commas(s)[k]),
    decreases s.len(),
{
    if s.len() > 0 {
        let init = s.drop_last();
        lemma_split_comma_free(init);
        lemma_split_commas_nonempty(init);
        let p = split_commas(init);
        if s.last() != ',' {
            let q = p.last().push(s.last());
            assert(comma_free(p[p.len() - 1]));
            assert forall|i: int| 0 <= i < q.len() implies #[trigger] q[i] != ',' by {
                if i < p.last().len() {
                    assert(q[i] == p[p.len() - 1][i]);
                }
            }
            assert forall|k: int|
                0 <= k < split_commas(s).len() implies comma_free(
                #[trigger] split_commas(s)[k],
            ) by {
                if k < p.len() - 1 {
                    assert(split_commas(s)[k] == p[k]);
                }
            }
        } else {
            assert forall|k: int|
                0 <= k < split_commas(s).len() implies comma_free(
                #[trigger] split_commas(s)[k],
            ) by {
                if k < p.len() {
                    assert(split_commas(s)[k] == p[k]);
                } else {
                    assert(split_commas(s)[k] =~= Seq::<char>::empty());
                }
            }
        }
    }
}

proof fn lemma_trim_start_suffix(s: Seq<char>)
    ensures
        trim_start(s).len() <= s.len(),
        trim_start(s) == s.subrange(s.len() - trim_start(s).len(), s.len() as int),
        trim_start(s).len() > 0 ==> !is_ws(trim_start(s)[0]),
    decreases s.len(),
{
    if s.len() > 0 && is_ws(s[0]) {
        lemma_trim_start_suffix(s.drop_first());
        let t = trim_start(s);
        assert(s.drop_first().subrange(s.len() - 1 - t.len(), s.len() - 1) =~= s.subrange(
            s.len() - t.len(),
            s.len() as int,
        ));
    } else {
        assert(s.subrange(0, s.len() as int) =~= s);
    }
}

proof fn lemma_trim_end_prefix(s: Seq<char>)
    ensures
        trim_end(s).len() <= s.len(),
        trim_end(s) == s.subrange(0, trim_end(s).len() as int),
        trim_end(s).len() > 0 ==> !is_ws(trim_end(s).last()),
    decreases s.len(),
{
    if s.len() > 0 && is_ws(s.last()) {
        lemma_trim_end_prefix(s.drop_last());
        let t = trim_end(s);
        assert(s.drop_last().subrange(0, t.len() as int) =~= s.subrange(0, t.len() as int));
    } else {
        assert(s.subrange(0, s.len() as int) =~= s);
    }
}

proof fn lemma_trim_piece_clean(p: Seq<char>)
    requires
        comma_free(p),
    ensures
        trim(p).len() > 0 ==> is_clean_entry(trim(p)),
{
    lemma_trim_start_suffix(p);
    let a = trim_start(p);
    lemma_trim_end_prefix(a);
    let t = trim_end(a);
    if t.len() > 0 {
        let off = p.len() - a.len();
        assert forall|i: int| 0 <= i < t.len() implies #[trigger] t[i] != ',' by {
            assert(t[i] == a[i]);
            assert(a[i] == p[off + i]);
        }
        assert(t[0] == a[0]);
    }
}

proof fn lemma_non_empty_only_clean(parts: Seq<Seq<char>>)
    requires
        forall|j: int|
            0 <= j < parts.len() ==> (#[trigger] parts[j]).len() > 0 ==> is_clean_entry(parts[j]),
    ensures
        forall|k: int|
            0 <= k < non_empty_only(parts).len() ==> is_clean_entry(
                #[trigger] non_empty_only(parts)[k],
            ),
    decreases parts.len(),
{
    if parts.len() > 0 {
        let init = parts.drop_last();
        assert forall|j: int|
            0 <= j < init.len() implies (#[trigger] init[j]).len() > 0 ==> is_clean_entry(
            init[j],
        ) by {
            assert(init[j] == parts[j]);
        }
        lemma_non_empty_only_clean(init);
        let rest = non_empty_only(init);
        assert(parts.last() == parts[parts.len() - 1]);
        assert forall|k: int|
            0 <= k < non_empty_only(parts).len() implies is_clean_entry(
            #[trigger] non_empty_only(parts)[k],
        ) by {
            if k < rest.len() {
                assert(non_empty_only(parts)[k] == rest[k]);
            }
        }
    }
}

/// Whatever text a comma-separated field holds, every entry read from it is
/// non-empty, comma-free and has no whitespace at either end.
pub proof fn lemma_csv_items_clean(text: Seq<char>)
    ensures
        forall|k: int| 0 <= k < csv_items(text).len() ==> is_clean_entry(#[trigger] csv_items(text)[k]),
{
    let pieces = split_commas(text);
    lemma_split_comma_free(text);
    let trimmed_pieces = trim_all(pieces);
    assert forall|j: int|
        0 <= j < trimmed_pieces.len() implies (#[trigger] trimmed_pieces[j]).len() > 0
        ==> is_clean_entry(trimmed_pieces[j]) by {
        assert(comma_free(pieces[j]));
        lemma_trim_piece_clean(pieces[j]);
    }
    lemma_non_empty_only_clean(trimmed_pieces);
}

/// The dynv6 tab's fields.
#[derive(Debug, Clone)]
pub struct Dynv6Form {
    pub enabled: bool,
    pub token: String,
    pub interface: String,
    pub domains_text: String,
}

/// Fills the dynv6 tab from the saved config: absent values become empty
/// fields, the domains one comma-separated line.
pub fn apply_dynv6_config(cfg: &Dynv6ConfigDto) -> (f: Dynv6Form)
    ensures
        f.enabled == cfg.enabled,
        f.token@ == unwrap_or_empty(opt_view(cfg.token)),
        f.interface@ == unwrap_or_empty(opt_view(cfg.interface)),
        f.domains_text@ == join(views(cfg.domains@), ", "@),
{
    Dynv6Form {
        enabled: cfg.enabled,
        token: text_or_empty(&cfg.token),
        interface: text_or_empty(&cfg.interface),
        domains_text: join_strings(&cfg.domains, ", "),
    }
}

/// Reads the dynv6 tab back into the config that is saved: empty fields
/// become absent values, the domains line is split on commas.
pub fn dynv6_from_form(form: &Dynv6Form) -> (cfg: Dynv6ConfigDto)
    ensures
        cfg.enabled == form.enabled,
        opt_view(cfg.token) == non_empty_spec(form.token@),
        opt_view(cfg.interface) == non_empty_spec(form.interface@),
        views(cfg.domains@) == csv_items(form.domains_text@),
{
    Dynv6ConfigDto {
        enabled: form.enabled,
        token: non_empty(form.token.clone()),
        interface: non_empty(form.interface.clone()),
        domains: split_csv(form.domains_text.as_str()),
    }
}

/// Loading a dynv6 config into the form and saving the form gives the same
/// config back, as long as no value is the empty string and every domain is
/// a clean entry.
pub proof fn lemma_dynv6_form_roundtrip(
    token: Option<Seq<char>>,
    interface: Option<Seq<char>>,
    domains: Seq<Seq<char>>,
)
    requires
        token != Some(Seq::<char>::empty()),
        interface != Some(Seq::<char>::empty()),
        forall|k: int| 0 <= k < domains.len() ==> is_clean_entry(#[trigger] domains[k]),
    ensures
        non_empty_spec(unwrap_or_empty(token)) == token,
        non_empty_spec(unwrap_or_empty(interface)) == interface,
        csv_items(join(domains, ", "@)) == domains,
{
    lemma_csv_roundtrip(domains);
    if let Some(t) = token {
        if t.len() == 0 {
            assert(t =~= Seq::<char>::empty());
        }
    }
    if let Some(t) = interface {
        if t.len() == 0 {
            assert(t =~= Seq::<char>::empty());
        }
    }
}

/// One status line: the error when the last attempt failed, else the time
/// of the last success ("?" when there is none).
pub open spec fn status_line(s: Dynv6StatusDto) -> Seq<char> {
    match s.last_error {
        Some(err) => s.domain@ + ": error - "@ + err@,
        None => s.domain@ + ": ok (last success at "@ + (match s.last_success {
            Some(t) => t@,
            None => "?"@,
        }) + ")"@,
    }
}

/// The sync status text shown in the dynv6 tab.
pub open spec fn status_text(statuses: Seq<Dynv6StatusDto>) -> Seq<char> {
    if statuses.len() == 0 {
        "No sync attempts yet."@
    } else {
        join(statuses.map_values(|s: Dynv6StatusDto| status_line(s)), " | "@)
    }
}

fn status_line_text(s: &Dynv6StatusDto) -> (t: String)
    ensures
        t@ == status_line(*s),
{
    let mut t = s.domain.clone();
    match &s.last_error {
        Some(err) => {
            push_str(&mut t, ": error - ");
            push_str(&mut t, err.as_str());
        },
        None => {
            push_str(&mut t, ": ok (last success at ");
            match &s.last_success {
                Some(when) => push_str(&mut t, when.as_str()),
                None => push_str(&mut t, "?"),
            }
            push_str(&mut t, ")");
        },
    }
    t
}

/// The sync status text: one line per domain joined by " | ", or a note
/// that nothing was attempted yet.
pub fn format_dynv6_status(statuses: &Vec<Dynv6StatusDto>) -> (t: String)
    ensures
        t@ == status_text(statuses@),
{
    if statuses.len() == 0 {
        return owned("No sync attempts yet.");
    }
    let mut lines: Vec<String> = Vec::new();
    let n = statuses.len();
    for i in 0..n
        invariant
            n == statuses@.len(),
            views(lines@) == statuses@.take(i as int).map_values(
                |s: Dynv6StatusDto| status_line(s),
            ),
    {
        let ghost before = views(lines@);
        let line = status_line_text(&statuses[i]);
        lines.push(line);
        assert(views(lines@) =~= before.push(status_line(statuses@[i as int])));
        assert(statuses@.take(i + 1) =~= statuses@.take(i as int).push(statuses@[i as int]));
        assert(views(lines@) =~= statuses@.take(i + 1).map_values(
            |s: Dynv6StatusDto| status_line(s),
        ));
    }
    assert(statuses@.take(n as int) =~= statuses@);
    join_strings(&lines, " | ")
}

/// A row of the interfaces table.
#[derive(Debug, Clone)]
pub struct InterfaceRow {
    pub name: String,
    pub mac: String,
    pub ipv4: String,
    pub ipv6: String,
}

/// The interfaces table and the names offered in the interface picker.
#[derive(Debug, Clone)]
pub struct InterfacesView {
    pub rows: Vec<InterfaceRow>,
    pub names: Vec<String>,
}

/// Whether `row` shows `dto`: the MAC empty when unknown, the addresses of
/// each family on one line separated by ", ".
pub open spec fn shows_interface(row: InterfaceRow, dto: InterfaceDto) -> bool {
    &&& row.name@ == dto.name@
    &&& row.mac@ == unwrap_or_empty(opt_view(dto.mac))
    &&& row.ipv4@ == join(views(dto.ipv4@), ", "@)
    &&& row.ipv6@ == join(views(dto.ipv6@), ", "@)
}

/// Fills the interfaces table and the interface picker, in list order.
pub fn apply_interfaces(list: &Vec<InterfaceDto>) -> (v: InterfacesView)
    ensures
        v.rows@.len() == list@.len(),
        forall|i: int| 0 <= i < list@.len() ==> shows_interface(#[trigger] v.rows@[i], list@[i]),
        views(v.names@) == list@.map_values(|d: InterfaceDto| d.name@),
{
    let mut rows: Vec<InterfaceRow> = Vec::new();
    let mut names: Vec<String> = Vec::new();
    let n = list.len();
    for i in 0..n
        invariant
            n == list@.len(),
            rows@.len() == i,
            forall|k: int| 0 <= k < i ==> shows_interface(#[trigger] rows@[k], list@[k]),
            views(names@) == list@.take(i as int).map_values(|d: InterfaceDto| d.name@),
    {
        let d = &list[i];
        let ghost before = views(names@);
        names.push(d.name.clone());
        rows.push(
            InterfaceRow {
                name: d.name.clone(),
                mac: text_or_empty(&d.mac),
                ipv4: join_strings(&d.ipv4, ", "),
                ipv6: join_strings(&d.ipv6, ", "),
            },
        );
        assert(views(names@) =~= before.push(d.name@));
        assert(views(names@) =~= list@.take(i + 1).map_values(|d: InterfaceDto| d.name@));
    }
    assert(list@.take(n as int) =~= list@);
    InterfacesView { rows, names }
}

/// A row of the routes table.
#[derive(Debug, Clone)]
pub struct RouteRow {
    pub id: String,
    pub subdomain: String,
    pub is_static: bool,
    pub path: String,
    pub port: i32,
    pub tls: bool,
    pub internal_port: i32,
}

/// Whether `row` shows `dto`: a folder route with its path and static
/// server port (0 while unassigned), a port route with its port; the fields
/// that do not apply are empty or 0.
pub open spec fn shows_route(row: RouteRow, dto: RouteDto) -> bool {
    &&& row.id@ == dto.id@
    &&& row.subdomain@ == dto.subdomain@
    &&& row.tls == dto.tls
    &&& match dto.target {
        RouteTargetDto::Static { path, .. } => {
            &&& row.is_static
            &&& row.path@ == path@
            &&& row.port == 0
            &&& row.internal_port == (match dto.internal_port {
                Some(p) => p as i32,
                None => 0i32,
            })
        },
        RouteTargetDto::Port { port } => {
            &&& !row.is_static
            &&& row.path@.len() == 0
            &&& row.port == port as i32
            &&& row.internal_port == 0
        },
    }
}

/// Fills the routes table, in list order.
pub fn apply_routes(list: &Vec<RouteDto>) -> (rows: Vec<RouteRow>)
    ensures
        rows@.len() == list@.len(),
        forall|i: int| 0 <= i < list@.len() ==> shows_route(#[trigger] rows@[i], list@[i]),
{
    let mut rows: Vec<RouteRow> = Vec::new();
    let n = list.len();
    for i in 0..n
        invariant
            n == list@.len(),
            rows@.len() == i,
            forall|k: int| 0 <= k < i ==> shows_route(#[trigger] rows@[k], list@[k]),
    {
        let r = &list[i];
        let row = match &r.target {
            RouteTargetDto::Static { path, .. } => RouteRow {
                id: r.id.clone(),
                subdomain: r.subdomain.clone(),
                is_static: true,
                path: path.clone(),
                port: 0,
                tls: r.tls,
                internal_port: match r.internal_port {
                    Some(p) => p as i32,
                    None => 0,
                },
            },
            RouteTargetDto::Port { port } => RouteRow {
                id: r.id.clone(),
                subdomain: r.subdomain.clone(),
                is_static: false,
                path: String::new(),
                port: *port as i32,
                tls: r.tls,
                internal_port: 0,
            },
        };
        rows.push(row);
    }
    rows
}

/// The message shown when a route is added without a subdomain.
pub open spec fn subdomain_required() -> Seq<char> {
    "subdomain is required"@
}

/// Reads the "add route" fields into a creation request: a folder route
/// always with hot reload, a port route with the port field cut to 16 bits;
/// refused while the subdomain is empty.
pub fn new_route_request(
    subdomain: String,
    is_static: bool,
    path: String,
    port: i32,
    tls: bool,
) -> (r: Result<NewRouteDto, String>)
    ensures
        r is Err <==> subdomain@.len() == 0,
        r matches Err(msg) ==> msg@ == subdomain_required(),
        r matches Ok(req) ==> {
            &&& req.subdomain == subdomain
            &&& req.tls == tls
            &&& if is_static {
                req.target == (RouteTargetDto::Static { path, hot_reload: true })
            } else {
                req.target == (RouteTargetDto::Port { port: port as u16 })
            }
        },
{
    if subdomain.as_str().is_empty() {
        return Err(owned("subdomain is required"));
    }
    let target = if is_static {
        RouteTargetDto::Static { path, hot_reload: true }
    } else {
        RouteTargetDto::Port { port: port as u16 }
    };
    Ok(NewRouteDto { subdomain, target, tls })
}

/// A row of the forwarding-rules table.
#[derive(Debug, Clone)]
pub struct L4RuleRow {
    pub id: String,
    pub name: String,
    pub is_udp: bool,
    pub listen_port: i32,
    pub upstream_port: i32,
}

/// The security tab's fields.
#[derive(Debug, Clone)]
pub struct SecurityForm {
    pub rules: Vec<L4RuleRow>,
    pub blocked_ips_text: String,
}

/// Whether `row` shows `dto`: UDP exactly when the protocol is "udp".
pub open spec fn shows_rule(row: L4RuleRow, dto: L4RuleDto) -> bool {
    &&& row.id@ == dto.id@
    &&& row.name@ == dto.name@
    &&& row.is_udp == (dto.protocol@ == "udp"@)
    &&& row.listen_port == dto.listen_port as i32
    &&& row.upstream_port == dto.upstream_port as i32
}

/// Fills the security tab: one row per rule in order, the blocked addresses
/// on one line separated by ", ".
pub fn apply_security(cfg: &SecurityConfigDto) -> (f: SecurityForm)
    ensures
        f.rules@.len() == cfg.l4_rules@.len(),
        forall|i: int|
            0 <= i < cfg.l4_rules@.len() ==> shows_rule(#[trigger] f.rules@[i], cfg.l4_rules@[i]),
        f.blocked_ips_text@ == join(views(cfg.blocked_ips@), ", "@),
{
    let mut rules: Vec<L4RuleRow> = Vec::new();
    let n = cfg.l4_rules.len();
    for i in 0..n
        invariant
            n == cfg.l4_rules@.len(),
            rules@.len() == i,
            forall|k: int| 0 <= k < i ==> shows_rule(#[trigger] rules@[k], cfg.l4_rules@[k]),
    {
        let r = &cfg.l4_rules[i];
        rules.push(
            L4RuleRow {
                id: r.id.clone(),
                name: r.name.clone(),
                is_udp: str_eq(r.protocol.as_str(), "udp"),
                listen_port: r.listen_port as i32,
                upstream_port: r.upstream_port as i32,
            },
        );
    }
    SecurityForm { rules, blocked_ips_text: join_strings(&cfg.blocked_ips, ", ") }
}

/// A copy of a rule row.
pub fn copy_rule_row(r: &L4RuleRow) -> (c: L4RuleRow)
    ensures
        c == *r,
{
    L4RuleRow {
        id: r.id.clone(),
        name: r.name.clone(),
        is_udp: r.is_udp,
        listen_port: r.listen_port,
        upstream_port: r.upstream_port,
    }
}

/// The message shown when a rule is added without a name.
pub open spec fn rule_name_required() -> Seq<char> {
    "rule name is required"@
}

/// Appends a new rule row under the text of a fresh random version-4 UUID
/// (that it differs from the ids already listed rests on chance and is not
/// stated); refused while the name is empty, leaving the table as it was.
pub fn add_l4_rule(
    rows: &Vec<L4RuleRow>,
    name: String,
    is_udp: bool,
    listen_port: i32,
    upstream_port: i32,
) -> (r: Result<Vec<L4RuleRow>, String>)
    ensures
        r is Err <==> name@.len() == 0,
        r matches Err(msg) ==> msg@ == rule_name_required(),
        r matches Ok(v) ==> {
            &&& v@.len() == rows@.len() + 1
            &&& v@.drop_last() == rows@
            &&& v@.last().name == name
            &&& v@.last().is_udp == is_udp
            &&& v@.last().listen_port == listen_port
            &&& v@.last().upstream_port == upstream_port
            &&& exists|u: u128| is_uuid_v4(u) && v@.last().id@ == #[trigger] uuid_text(u)
        },
{
    if name.as_str().is_empty() {
        return Err(owned("rule name is required"));
    }
    let mut v: Vec<L4RuleRow> = Vec::new();
    let n = rows.len();
    for i in 0..n
        invariant
            n == rows@.len(),
            v@ == rows@.take(i as int),
    {
        v.push(copy_rule_row(&rows[i]));
        assert(v@ =~= rows@.take(i + 1));
    }
    assert(rows@.take(n as int) =~= rows@);
    let u = new_uuid();
    let id = uuid_string(u);
    v.push(L4RuleRow { id, name, is_udp, listen_port, upstream_port });
    assert(v@.last().id@ == uuid_text(u));
    assert(v@.drop_last() =~= rows@);
    Ok(v)
}

/// The rows whose id is not `id`, in order.
pub open spec fn rules_without(rows: Seq<L4RuleRow>, id: Seq<char>) -> Seq<L4RuleRow>
    decreases rows.len(),
{
    if rows.len() == 0 {
        Seq::empty()
    } else {
        let rest = rules_without(rows.drop_last(), id);
        if rows.last().id@ == id {
            rest
        } else {
            rest.push(rows.last())
        }
    }
}

/// Deleting a rule keeps exactly the rows with another id, in their order:
/// no other row is lost, and no row carrying the id is left.
pub proof fn lemma_delete_rule_keeps_others(rows: Seq<L4RuleRow>, id: Seq<char>)
    ensures
        rules_without(rows, id) == rows.filter(|r: L4RuleRow| r.id@ != id),
    decreases rows.len(),
{
    reveal(Seq::filter);
    if rows.len() > 0 {
        lemma_delete_rule_keeps_others(rows.drop_last(), id);
    }
}

/// Removes the rule rows with this id.
pub fn delete_l4_rule(rows: &Vec<L4RuleRow>, id: &str) -> (v: Vec<L4RuleRow>)
    ensures
        v@ == rules_without(rows@, id@),
{
    let mut v: Vec<L4RuleRow> = Vec::new();
    let n = rows.len();
    for i in 0..n
        invariant
            n == rows@.len(),
            v@ == rules_without(rows@.take(i as int), id@),
    {
        assert(rows@.take(i + 1).drop_last() =~= rows@.take(i as int));
        if !str_eq(rows[i].id.as_str(), id) {
            v.push(copy_rule_row(&rows[i]));
        }
    }
    assert(rows@.take(n as int) =~= rows@);
    v
}

/// The protocol name a row is saved with.
pub open spec fn protocol_of(is_udp: bool) -> Seq<char> {
    if is_udp {
        "udp"@
    } else {
        "tcp"@
    }
}

/// Whether `dto` is what `row` is saved as: ports cut to 16 bits.
pub open spec fn saves_rule(dto: L4RuleDto, row: L4RuleRow) -> bool {
    &&& dto.id@ == row.id@
    &&& dto.name@ == row.name@
    &&& dto.protocol@ == protocol_of(row.is_udp)
    &&& dto.listen_port == row.listen_port as u16
    &&& dto.upstream_port == row.upstream_port as u16
}

/// Reads the security tab back into the config that is saved.
pub fn security_from_form(rows: &Vec<L4RuleRow>, blocked_ips_text: &str) -> (cfg: SecurityConfigDto)
    ensures
        cfg.l4_rules@.len() == rows@.len(),
        forall|i: int| 0 <= i < rows@.len() ==> saves_rule(#[trigger] cfg.l4_rules@[i], rows@[i]),
        views(cfg.blocked_ips@) == csv_items(blocked_ips_text@),
{
    let mut l4_rules: Vec<L4RuleDto> = Vec::new();
    let n = rows.len();
    for i in 0..n
        invariant
            n == rows@.len(),
            l4_rules@.len() == i,
            forall|k: int| 0 <= k < i ==> saves_rule(#[trigger] l4_rules@[k], rows@[k]),
    {
        let r = &rows[i];
        let protocol = if r.is_udp {
            owned("udp")
        } else {
            owned("tcp")
        };
        l4_rules.push(
            L4RuleDto {
                id: r.id.clone(),
                name: r.name.clone(),
                protocol,
                listen_port: r.listen_port as u16,
                upstream_port: r.upstream_port as u16,
            },
        );
    }
    SecurityConfigDto { l4_rules, blocked_ips: split_csv(blocked_ips_text) }
}

/// A rule shown in the security tab and saved again is unchanged, as long as
/// its protocol is "tcp" or "udp".
pub proof fn lemma_rule_roundtrip(dto: L4RuleDto, row: L4RuleRow, saved: L4RuleDto)
    requires
        dto.protocol@ == "tcp"@ || dto.protocol@ == "udp"@,
        shows_rule(row, dto),
        saves_rule(saved, row),
    ensures
        saved.id@ == dto.id@,
        saved.name@ == dto.name@,
        saved.protocol@ == dto.protocol@,
        saved.listen_port == dto.listen_port,
        saved.upstream_port == dto.upstream_port,
{
    reveal_strlit("tcp");
    reveal_strlit("udp");
    assert("tcp"@ != "udp"@) by {
        assert("tcp"@[0] != "udp"@[0]);
    }
}

/// A row of the mail accounts table.
#[derive(Debug, Clone)]
pub struct MailAccountRow {
    pub address: String,
    pub display_name: String,
}

/// The mail tab's fields.
#[derive(Debug, Clone)]
pub struct MailForm {
    pub domain: String,
    pub accounts: Vec<MailAccountRow>,
}

/// Fills the mail tab: the domain (empty when unset) and one row per
/// account in order.
pub fn apply_mail(cfg: &MailConfigDto) -> (f: MailForm)
    ensures
        f.domain@ == unwrap_or_empty(opt_view(cfg.domain)),
        f.accounts@.len() == cfg.accounts@.len(),
        forall|i: int|
            0 <= i < cfg.accounts@.len() ==> (#[trigger] f.accounts@[i]).address@
                == cfg.accounts@[i].address@ && f.accounts@[i].display_name@
                == cfg.accounts@[i].display_name@,
{
    let mut accounts: Vec<MailAccountRow> = Vec::new();
    let n = cfg.accounts.len();
    for i in 0..n
        invariant
            n == cfg.accounts@.len(),
            accounts@.len() == i,
            forall|k: int|
                0 <= k < i ==> (#[trigger] accounts@[k]).address@ == cfg.accounts@[k].address@
                    && accounts@[k].display_name@ == cfg.accounts@[k].display_name@,
    {
        let a = &cfg.accounts[i];
        accounts.push(
            MailAccountRow { address: a.address.clone(), display_name: a.display_name.clone() },
        );
    }
    MailForm { domain: text_or_empty(&cfg.domain), accounts }
}

/// Loading the mail domain into the form and saving the form gives the same
/// domain back, unless it was set to the empty string.
pub proof fn lemma_mail_form_roundtrip(domain: Option<Seq<char>>)
    requires
        domain != Some(Seq::<char>::empty()),
    ensures
        non_empty_spec(unwrap_or_empty(domain)) == domain,
{
    if let Some(t) = domain {
        if t.len() == 0 {
            assert(t =~= Seq::<char>::empty());
        }
    }
}

/// A copy of an account row.
pub fn copy_account_row(r: &MailAccountRow) -> (c: MailAccountRow)
    ensures
        c == *r,
{
    MailAccountRow { address: r.address.clone(), display_name: r.display_name.clone() }
}

/// The message shown when an account is added without an address.
pub open spec fn address_required() -> Seq<char> {
    "address is required"@
}

/// Appends an account row; refused while the address is empty, leaving the
/// table as it was.
pub fn add_mail_account(rows: &Vec<MailAccountRow>, address: String, display_name: String) -> (r:
    Result<Vec<MailAccountRow>, String>)
    ensures
        r is Err <==> address@.len() == 0,
        r matches Err(msg) ==> msg@ == address_required(),
        r matches Ok(v) ==> v@ == rows@.push((MailAccountRow { address, display_name })),
{
    if address.as_str().is_empty() {
        return Err(owned("address is required"));
    }
    let mut v: Vec<MailAccountRow> = Vec::new();
    let n = rows.len();
    for i in 0..n
        invariant
            n == rows@.len(),
            v@ == rows@.take(i as int),
    {
        v.push(copy_account_row(&rows[i]));
        assert(v@ =~= rows@.take(i + 1));
    }
    assert(rows@.take(n as int) =~= rows@);
    v.push(MailAccountRow { address, display_name });
    Ok(v)
}

/// The rows whose address is not `address`, in order.
pub open spec fn accounts_without(rows: Seq<MailAccountRow>, address: Seq<char>) -> Seq<
    MailAccountRow,
>
    decreases rows.len(),
{
    if rows.len() == 0 {
        Seq::empty()
    } else {
        let rest = accounts_without(rows.drop_last(), address);
        if rows.last().address@ == address {
            rest
        } else {
            rest.push(rows.last())
        }
    }
}

/// Deleting an account keeps exactly the rows with another address, in
/// their order: no other account is lost, and none with the address is left.
pub proof fn lemma_delete_account_keeps_others(rows: Seq<MailAccountRow>, address: Seq<char>)
    ensures
        accounts_without(rows, address) == rows.filter(|r: MailAccountRow| r.address@ != address),
    decreases rows.len(),
{
    reveal(Seq::filter);
    if rows.len() > 0 {
        lemma_delete_account_keeps_others(rows.drop_last(), address);
    }
}

/// Removes the account rows with this address.
pub fn delete_mail_account(rows: &Vec<MailAccountRow>, address: &str) -> (v: Vec<MailAccountRow>)
    ensures
        v@ == accounts_without(rows@, address@),
{
    let mut v: Vec<MailAccountRow> = Vec::new();
    let n = rows.len();
    for i in 0..n
        invariant
            n == rows@.len(),
            v@ == accounts_without(rows@.take(i as int), address@),
    {
        assert(rows@.take(i + 1).drop_last() =~= rows@.take(i as int));
        if !str_eq(rows[i].address.as_str(), address) {
            v.push(copy_account_row(&rows[i]));
        }
    }
    assert(rows@.take(n as int) =~= rows@);
    v
}

/// Reads the mail tab back into the config that is saved: an empty domain
/// means none.
pub fn mail_from_form(domain: String, rows: &Vec<MailAccountRow>) -> (cfg: MailConfigDto)
    ensures
        opt_view(cfg.domain) == non_empty_spec(domain@),
        cfg.accounts@.len() == rows@.len(),
        forall|i: int|
            0 <= i < rows@.len() ==> (#[trigger] cfg.accounts@[i]).address@ == rows@[i].address@
                && cfg.accounts@[i].display_name@ == rows@[i].display_name@,
{
    let mut accounts: Vec<MailAccountDto> = Vec::new();
    let n = rows.len();
    for i in 0..n
        invariant
            n == rows@.len(),
            accounts@.len() == i,
            forall|k: int|
                0 <= k < i ==> (#[trigger] accounts@[k]).address@ == rows@[k].address@
                    && accounts@[k].display_name@ == rows@[k].display_name@,
    {
        let a = &rows[i];
        accounts.push(
            MailAccountDto { address: a.address.clone(), display_name: a.display_name.clone() },
        );
    }
    MailConfigDto { domain: non_empty(domain), accounts }
}

} // verus!
