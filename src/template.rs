//! Resolving the variables of a stored template and rendering it.

use vstd::prelude::*;

use crate::error::KappaError;
use crate::number::{signed_decimal, signed_decimal_string};
use crate::uptime::{as_readable_time, readable_time};

verus! {

/// The placeholder names that the template engine finds in a text, in order
/// of appearance, or `None` when the placeholder syntax is malformed.
pub uninterp spec fn found_keys(body: Seq<char>) -> Option<Seq<Seq<char>>>;

/// `s` with every occurrence of `pat` replaced by `rep`, scanning from the
/// left without overlaps, as `str::replace` does.
pub open spec fn replace_all(s: Seq<char>, pat: Seq<char>, rep: Seq<char>) -> Seq<char>
    decreases s.len(),
{
    if pat.len() == 0 || s.len() < pat.len() {
        s
    } else if s.subrange(0, pat.len() as int) == pat {
        rep + replace_all(s.subrange(pat.len() as int, s.len() as int), pat, rep)
    } else {
        seq![s[0]] + replace_all(s.drop_first(), pat, rep)
    }
}

/// The placeholder `${key}`.
pub open spec fn placeholder(key: Seq<char>) -> Seq<char> {
    seq!['$', '{'] + key + seq!['}']
}

/// `body` with each binding's placeholder replaced by its value, one binding
/// after the other.
pub open spec fn applied(body: Seq<char>, bindings: Seq<(Seq<char>, Seq<char>)>) -> Seq<char>
    decreases bindings.len(),
{
    if bindings.len() == 0 {
        body
    } else {
        let last = bindings.last();
        replace_all(applied(body, bindings.drop_last()), placeholder(last.0), last.1)
    }
}

pub open spec fn strings_view(v: Seq<String>) -> Seq<Seq<char>> {
    v.map_values(|s: String| s@)
}

pub open spec fn pairs_view(v: Seq<(String, String)>) -> Seq<(Seq<char>, Seq<char>)> {
    v.map_values(|p: (String, String)| (p.0@, p.1@))
}

/// Whether the engine accepts `body` with `bindings`: its placeholders are
/// well formed, there is at least one, none repeats, and every binding names one.
pub open spec fn renders(body: Seq<char>, bindings: Seq<(Seq<char>, Seq<char>)>) -> bool {
    match found_keys(body) {
        Some(keys) => {
            &&& keys.len() > 0
            &&& keys.no_duplicates()
            &&& forall|i: int| 0 <= i < bindings.len() ==> keys.contains(#[trigger] bindings[i].0)
        },
        None => false,
    }
}

/// A value that cannot form a placeholder with the text around it.
pub open spec fn plain_value(v: Seq<char>) -> bool {
    v.len() > 0 && !v.contains('$') && !v.contains('{')
}

/// Bindings with distinct names and plain values, for which the order in which
/// the engine applies them does not matter.
pub open spec fn plain_bindings(b: Seq<(Seq<char>, Seq<char>)>) -> bool {
    &&& forall|i: int| 0 <= i < b.len() ==> plain_value(#[trigger] b[i].1)
    &&& forall|i: int, j: int| 0 <= i < j < b.len() ==> b[i].0 != b[j].0
}

/// Bindings whose rendering does not depend on the order of application:
/// at most one, or plain ones.
pub open spec fn order_free(b: Seq<(Seq<char>, Seq<char>)>) -> bool {
    b.len() <= 1 || plain_bindings(b)
}

/// Relies on markings::Template::find_keys: the names inside the `${...}`
/// placeholders of `body`, in order, or an error when they are malformed.
#[verifier::external_body]
fn find_keys(body: &str) -> (r: Result<Vec<String>, markings::Error>)
    ensures
        r is Ok <==> found_keys(body@) is Some,
        r matches Ok(keys) ==> strings_view(keys@) == found_keys(body@)->0,
{
    match markings::Template::find_keys(body) {
        Ok(keys) => Ok(keys.into_iter().map(|k| k.to_string()).collect()),
        Err(e) => Err(e),
    }
}

/// Relies on markings::Template::parse with the default options, then
/// Template::apply with an Args built from `bindings`: parsing fails on
/// malformed placeholders, on a text without any and on a repeated one;
/// applying fails on a binding that names no placeholder, and otherwise
/// replaces every `${key}` that has a binding with its value. Args keeps the
/// bindings in a hash map and applies them in its order; with plain bindings
/// no value can complete or break another placeholder, so the text does not
/// depend on that order; nor does it with at most one binding.
#[verifier::external_body]
fn apply_template(body: &str, bindings: &Vec<(String, String)>) -> (r: Result<String, markings::Error>)
    ensures
        r is Ok <==> renders(body@, pairs_view(bindings@)),
        r is Ok && order_free(pairs_view(bindings@)) ==> r->Ok_0@ == applied(
            body@,
            pairs_view(bindings@),
        ),
{
    let args: markings::Args = bindings.iter().map(|(k, v)| (k.as_str(), v)).collect();
    markings::Template::parse(body, markings::Opts::default())?.apply(&args)
}

pub open spec fn name_key() -> Seq<char> {
    "name"@
}

pub open spec fn botuptime_key() -> Seq<char> {
    "botuptime"@
}

pub open spec fn uptime_key() -> Seq<char> {
    "uptime"@
}

pub open spec fn points_key() -> Seq<char> {
    "points"@
}

pub open spec fn binding_if(present: bool, key: Seq<char>, value: Seq<char>) -> Seq<(Seq<char>, Seq<char>)> {
    if present {
        seq![(key, value)]
    } else {
        Seq::empty()
    }
}

/// The bindings for the placeholders among `keys` that the bot knows: the
/// sender's name, the uptime under either of its names, and the points balance
/// when one was looked up.
pub open spec fn bindings_for(
    keys: Seq<Seq<char>>,
    user_name: Seq<char>,
    uptime_secs: nat,
    points: Option<i64>,
) -> Seq<(Seq<char>, Seq<char>)> {
    binding_if(keys.contains(name_key()), name_key(), user_name) + binding_if(
        keys.contains(botuptime_key()),
        botuptime_key(),
        readable_time(uptime_secs),
    ) + binding_if(keys.contains(uptime_key()), uptime_key(), readable_time(uptime_secs))
        + match points {
        Some(p) => binding_if(keys.contains(points_key()), points_key(), signed_decimal(p as int)),
        None => Seq::empty(),
    }
}

/// Whether rendering `body` for a sender with `user_id` needs a points balance.
pub open spec fn wants_points(body: Seq<char>, user_id: Option<u64>) -> bool {
    user_id is Some && (found_keys(body) matches Some(keys) && keys.contains(points_key()))
}

fn contains_key(keys: &Vec<String>, key: &str) -> (r: bool)
    ensures
        r == strings_view(keys@).contains(key@),
{
    let k = String::from_str(key);
    let mut i: usize = 0;
    while i < keys.len()
        invariant
            i <= keys.len(),
            k@ == key@,
            forall|j: int| 0 <= j < i ==> keys@[j]@ != key@,
        decreases keys.len() - i,
    {
        if keys[i] == k {
            proof {
                assert(strings_view(keys@)[i as int] == key@);
            }
            return true;
        }
        i = i + 1;
    }
    proof {
        if strings_view(keys@).contains(key@) {
            let j = choose|j: int| 0 <= j < keys@.len() && strings_view(keys@)[j] == key@;
            assert(keys@[j]@ == key@);
        }
    }
    false
}

fn push_binding(bindings: &mut Vec<(String, String)>, present: bool, key: &str, value: &str)
    ensures
        pairs_view(final(bindings)@) == pairs_view(old(bindings)@) + binding_if(present, key@, value@),
{
    if present {
        bindings.push((String::from_str(key), String::from_str(value)));
        proof {
            assert(pairs_view(final(bindings)@) =~= pairs_view(old(bindings)@) + binding_if(
                present,
                key@,
                value@,
            ));
        }
    } else {
        proof {
            assert(pairs_view(bindings@) =~= pairs_view(old(bindings)@) + binding_if(
                present,
                key@,
                value@,
            ));
        }
    }
}

/// Builds the bindings for the placeholders `keys`.
pub fn resolve_bindings(
    keys: &Vec<String>,
    user_name: &str,
    uptime_secs: u64,
    points: Option<i64>,
) -> (r: Vec<(String, String)>)
    ensures
        pairs_view(r@) == bindings_for(strings_view(keys@), user_name@, uptime_secs as nat, points),
{
    let name = "name";
    let botuptime = "botuptime";
    let uptime = "uptime";
    let points_name = "points";
    proof {
        reveal_strlit("name");
        reveal_strlit("botuptime");
        reveal_strlit("uptime");
        reveal_strlit("points");
    }
    let mut bindings: Vec<(String, String)> = Vec::new();
    proof {
        assert(pairs_view(bindings@) =~= Seq::<(Seq<char>, Seq<char>)>::empty());
    }
    push_binding(&mut bindings, contains_key(keys, name), name, user_name);
    let readable = as_readable_time(uptime_secs);
    push_binding(&mut bindings, contains_key(keys, botuptime), botuptime, readable.as_str());
    push_binding(&mut bindings, contains_key(keys, uptime), uptime, readable.as_str());
    match points {
        Some(p) => {
            let text = signed_decimal_string(p);
            push_binding(&mut bindings, contains_key(keys, points_name), points_name, text.as_str());
        },
        None => {},
    }
    proof {
        assert(pairs_view(bindings@) =~= bindings_for(
            strings_view(keys@),
            user_name@,
            uptime_secs as nat,
            points,
        ));
    }
    bindings
}

/// Whether a points balance must be looked up before rendering `body` for a
/// sender with `user_id`.
pub fn needs_points(body: &str, user_id: Option<u64>) -> (r: bool)
    ensures
        r == wants_points(body@, user_id),
{
    if user_id.is_none() {
        return false;
    }
    match find_keys(body) {
        Ok(keys) => {
            let points_name = "points";
            proof {
                reveal_strlit("points");
            }
            contains_key(&keys, points_name)
        },
        Err(_) => false,
    }
}

proof fn lemma_bindings_name_keys(
    keys: Seq<Seq<char>>,
    user_name: Seq<char>,
    uptime_secs: nat,
    points: Option<i64>,
)
    ensures
        forall|i: int| 0 <= i < bindings_for(keys, user_name, uptime_secs, points).len()
            ==> keys.contains(#[trigger] bindings_for(keys, user_name, uptime_secs, points)[i].0),
{
    let b = bindings_for(keys, user_name, uptime_secs, points);
    assert forall|i: int| 0 <= i < b.len() implies keys.contains(#[trigger] b[i].0) by {
        let b1 = binding_if(keys.contains(name_key()), name_key(), user_name);
        let b2 = binding_if(keys.contains(botuptime_key()), botuptime_key(), readable_time(uptime_secs));
        let b3 = binding_if(keys.contains(uptime_key()), uptime_key(), readable_time(uptime_secs));
        let b4 = match points {
            Some(p) => binding_if(keys.contains(points_key()), points_key(), signed_decimal(p as int)),
            None => Seq::empty(),
        };
        assert(b == b1 + b2 + b3 + b4);
        if i < b1.len() {
            assert(b[i] == b1[i]);
        } else if i < b1.len() + b2.len() {
            assert(b[i] == b2[i - b1.len()]);
        } else if i < b1.len() + b2.len() + b3.len() {
            assert(b[i] == b3[i - b1.len() - b2.len()]);
        } else {
            assert(b[i] == b4[i - b1.len() - b2.len() - b3.len()]);
        }
    }
}

/// Whether the placeholder `key` gets a value: the name and the uptime always,
/// the points when a balance was looked up.
pub open spec fn known_key(key: Seq<char>, has_points: bool) -> bool {
    key == name_key() || key == botuptime_key() || key == uptime_key() || (has_points && key
        == points_key())
}

/// Whether every placeholder among `keys` gets a value.
pub open spec fn all_known(keys: Seq<Seq<char>>, has_points: bool) -> bool {
    forall|i: int| 0 <= i < keys.len() ==> known_key(#[trigger] keys[i], has_points)
}

/// The first placeholder among `keys` that gets no value, if any.
pub open spec fn first_unknown(keys: Seq<Seq<char>>, has_points: bool) -> Option<int> {
    if all_known(keys, has_points) {
        None
    } else {
        Some(
            choose|i: int|
                0 <= i < keys.len() && !known_key(keys[i], has_points) && forall|j: int|
                    0 <= j < i ==> known_key(#[trigger] keys[j], has_points),
        )
    }
}

/// Whether `body` renders once the bot's variables are bound: its placeholders
/// are well formed, each gets a value, and none repeats.
pub open spec fn template_renders(body: Seq<char>, has_points: bool) -> bool {
    found_keys(body) matches Some(keys) && all_known(keys, has_points) && keys.no_duplicates()
}

/// Whether `body` has well-formed placeholders, one of which gets no value.
pub open spec fn lacks_variable(body: Seq<char>, has_points: bool) -> bool {
    found_keys(body) matches Some(keys) && !all_known(keys, has_points)
}

/// The errors of rendering.
pub open spec fn is_render_error(e: KappaError) -> bool {
    e is MissingVariable || e is MarkingsError
}

/// What rendering `body` gives: the text itself when it has no placeholder,
/// else the engine's rendering with the bindings the bot knows.
pub open spec fn rendered(
    body: Seq<char>,
    keys: Seq<Seq<char>>,
    user_name: Seq<char>,
    uptime_secs: nat,
    points: Option<i64>,
) -> Seq<char> {
    if keys.len() == 0 {
        body
    } else {
        applied(body, bindings_for(keys, user_name, uptime_secs, points))
    }
}

fn is_known(key: &String, has_points: bool) -> (r: bool)
    ensures
        r == known_key(key@, has_points),
{
    proof {
        reveal_strlit("name");
        reveal_strlit("botuptime");
        reveal_strlit("uptime");
        reveal_strlit("points");
    }
    let k = key.as_str();
    str_eq(k, "name") || str_eq(k, "botuptime") || str_eq(k, "uptime") || (has_points && str_eq(
        k,
        "points",
    ))
}

pub(crate) fn str_eq(a: &str, b: &str) -> (r: bool)
    ensures
        r == (a@ == b@),
{
    String::from_str(a) == String::from_str(b)
}

/// Index of the first placeholder of `keys` that gets no value.
fn unknown_key(keys: &Vec<String>, has_points: bool) -> (r: Option<usize>)
    ensures
        match r {
            Some(i) => i < keys@.len() && !known_key(keys@[i as int]@, has_points) && forall|j: int|
                0 <= j < i ==> known_key(#[trigger] keys@[j]@, has_points),
            None => all_known(strings_view(keys@), has_points),
        },
{
    let mut i: usize = 0;
    while i < keys.len()
        invariant
            i <= keys.len(),
            forall|j: int| 0 <= j < i ==> known_key(#[trigger] keys@[j]@, has_points),
        decreases keys.len() - i,
    {
        if !is_known(&keys[i], has_points) {
            return Some(i);
        }
        i = i + 1;
    }
    proof {
        assert forall|j: int| 0 <= j < strings_view(keys@).len() implies known_key(
            #[trigger] strings_view(keys@)[j],
            has_points,
        ) by {
            assert(strings_view(keys@)[j] == keys@[j]@);
        }
    }
    None
}

/// Renders a template text with the variables it names.
///
/// Fails when the placeholders are malformed, when one of them gets no value,
/// and when one of them repeats.
pub fn render_template(
    body: &str,
    user_name: &str,
    uptime_secs: u64,
    points: Option<i64>,
) -> (r: Result<String, KappaError>)
    ensures
        r is Ok <==> template_renders(body@, points is Some),
        r matches Err(KappaError::MissingVariable(k)) ==> (found_keys(body@) matches Some(keys)
            && first_unknown(keys, points is Some) matches Some(i) && k@ == keys[i]),
        r matches Err(e) ==> is_render_error(e),
        lacks_variable(body@, points is Some) ==> r matches Err(KappaError::MissingVariable(_)),
        r matches Ok(text) ==> {
            let keys = found_keys(body@)->0;
            let b = bindings_for(keys, user_name@, uptime_secs as nat, points);
            (keys.len() == 0 || order_free(b)) ==> text@ == rendered(
                body@,
                keys,
                user_name@,
                uptime_secs as nat,
                points,
            )
        },
{
    let keys = match find_keys(body) {
        Ok(keys) => keys,
        Err(e) => return Err(KappaError::MarkingsError(e)),
    };
    if keys.len() == 0 {
        proof {
            assert(strings_view(keys@).no_duplicates());
        }
        return Ok(String::from_str(body));
    }
    match unknown_key(&keys, points.is_some()) {
        Some(i) => {
            proof {
                let ks = strings_view(keys@);
                assert(ks[i as int] == keys@[i as int]@);
                assert(!all_known(ks, points is Some));
                let c = first_unknown(ks, points is Some)->0;
                assert forall|j: int| 0 <= j < i implies known_key(#[trigger] ks[j], points is Some) by {
                    assert(ks[j] == keys@[j]@);
                }
                if c < i {
                    assert(ks[c] == keys@[c]@);
                } else if c > i {
                    assert(known_key(ks[i as int], points is Some));
                }
            }
            return Err(KappaError::MissingVariable(keys[i].clone()));
        },
        None => {},
    }
    let bindings = resolve_bindings(&keys, user_name, uptime_secs, points);
    proof {
        lemma_bindings_name_keys(strings_view(keys@), user_name@, uptime_secs as nat, points);
    }
    match apply_template(body, &bindings) {
        Ok(text) => Ok(text),
        Err(e) => Err(KappaError::MarkingsError(e)),
    }
}

} // verus!
