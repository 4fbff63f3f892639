//! Emails to controllers: which configured template a name selects, how
//! the Air Traffic Manager and deputy sign, and the rendered text.

use crate::config::{Config, ConfigEmailTemplate};
use crate::sql::Controller;
use crate::text::{append_str, chars_eq, chars_of, contains_exec, contains_seq, string_from_chars};
use vstd::prelude::*;

verus! {

/// The template engine's environments.
#[verifier::external_type_specification]
#[verifier::external_body]
pub struct ExEnvironment<'source>(minijinja::Environment<'source>);

/// Name of the template telling an applicant they were accepted as a
/// visitor.
pub open spec fn visitor_accepted_template() -> Seq<char> {
    "visitor_accepted"@
}

/// Name of the template telling an applicant they were not accepted.
pub open spec fn visitor_denied_template() -> Seq<char> {
    "visitor_denied"@
}

/// Name of the template telling a visitor they were removed.
pub open spec fn visitor_removed_template() -> Seq<char> {
    "visitor_removed"@
}

/// The name of the accepted-visitor template.
pub fn visitor_accepted() -> (s: String)
    ensures
        s@ == visitor_accepted_template(),
{
    String::from_str("visitor_accepted")
}

/// The name of the denied-visitor template.
pub fn visitor_denied() -> (s: String)
    ensures
        s@ == visitor_denied_template(),
{
    String::from_str("visitor_denied")
}

/// The name of the removed-visitor template.
pub fn visitor_removed() -> (s: String)
    ensures
        s@ == visitor_removed_template(),
{
    String::from_str("visitor_removed")
}

/// The configured template a name selects.
pub open spec fn template_for(config: Config, name: Seq<char>) -> Option<ConfigEmailTemplate> {
    if name == visitor_accepted_template() {
        Some(config.email.visitor_accepted_template)
    } else if name == visitor_denied_template() {
        Some(config.email.visitor_denied_template)
    } else if name == visitor_removed_template() {
        Some(config.email.visitor_removed_template)
    } else {
        None
    }
}

/// The signature of the first controller whose roles name `role` and not
/// `excluded`: their name, a comma and the role; nothing if none does.
pub open spec fn signature(controllers: Seq<Controller>, role: Seq<char>, excluded: Option<Seq<char>>) -> Seq<char>
    decreases controllers.len(),
{
    if controllers.len() == 0 {
        Seq::empty()
    } else {
        let c = controllers[0];
        if contains_seq(c.roles@, role) && !(excluded matches Some(x) && contains_seq(c.roles@, x)) {
            c.first_name@ + " "@ + c.last_name@ + ", "@ + role
        } else {
            signature(controllers.drop_first(), role, excluded)
        }
    }
}

/// The Air Traffic Manager's signature ("DATM" also holds "ATM").
pub open spec fn atm_signature(controllers: Seq<Controller>) -> Seq<char> {
    signature(controllers, "ATM"@, Some("DATM"@))
}

/// The Deputy Air Traffic Manager's signature.
pub open spec fn datm_signature(controllers: Seq<Controller>) -> Seq<char> {
    signature(controllers, "DATM"@, None)
}

/// The signature for `role`.
fn signature_exec(controllers: &Vec<Controller>, role: &str, excluded: Option<&str>) -> (s: String)
    ensures
        s@ == signature(
            controllers@,
            role@,
            match excluded {
                Some(x) => Some(x@),
                None => None,
            },
        ),
{
    let ghost ex = match excluded {
        Some(x) => Some(x@),
        None => None::<Seq<char>>,
    };
    let r = chars_of(role);
    let x = match excluded {
        Some(x) => Some(chars_of(x)),
        None => None,
    };
    let mut i: usize = 0;
    assert(controllers@.skip(0) =~= controllers@);
    while i < controllers.len()
        invariant
            i <= controllers.len(),
            r@ == role@,
            ex == match excluded {
                Some(xv) => Some(xv@),
                None => None::<Seq<char>>,
            },
            match x {
                Some(v) => ex == Some(v@),
                None => ex is None,
            },
            signature(controllers@, role@, ex) == signature(controllers@.skip(i as int), role@, ex),
        decreases controllers.len() - i,
    {
        let c = &controllers[i];
        assert(controllers@.skip(i as int)[0] == controllers@[i as int]);
        let roles = chars_of(c.roles.as_str());
        let has_role = contains_exec(&roles, &r);
        let has_excluded = match &x {
            Some(v) => contains_exec(&roles, v),
            None => false,
        };
        if has_role && !has_excluded {
            assert(!(ex matches Some(xx) && contains_seq(c.roles@, xx)));
            let mut v = chars_of(c.first_name.as_str());
            append_str(&mut v, " ");
            append_str(&mut v, c.last_name.as_str());
            append_str(&mut v, ", ");
            append_str(&mut v, role);
            assert(controllers@.skip(i as int).len() > 0);
            assert(signature(controllers@.skip(i as int), role@, ex) == c.first_name@ + " "@
                + c.last_name@ + ", "@ + role@);
            assert(v@ =~= c.first_name@ + " "@ + c.last_name@ + ", "@ + role@);
            return string_from_chars(&v);
        }
        assert(controllers@.skip(i as int).drop_first() =~= controllers@.skip(i + 1));
        i = i + 1;
    }
    assert(controllers@.skip(i as int).len() == 0);
    String::new()
}

/// What the template engine makes of an email body template, named `body`,
/// given the recipient's name and the two signatures; `None` when it
/// reports an error.
pub uninterp spec fn rendered_email_body(
    source: Seq<char>,
    recipient_name: Seq<char>,
    atm: Seq<char>,
    datm: Seq<char>,
) -> Option<Seq<char>>;

/// Calls `minijinja::Environment::new`; nothing is claimed of the result.
#[verifier::external_body]
fn new_environment() -> minijinja::Environment<'static> {
    minijinja::Environment::new()
}

/// Calls `minijinja::Environment::render_named_str` on `source` under the
/// template name `body`, with `recipient_name`, `atm` and `datm` as the
/// context's variables (an ordered map, so the context reads the same in
/// every run). Claimed: the result is `rendered_email_body` of the template
/// and those values, for an environment as `new_environment` makes it (no
/// templates, filters or globals added; the name does not take the
/// environment).
#[verifier::external_body]
fn render_body(
    env: &minijinja::Environment<'static>,
    source: &str,
    recipient_name: &str,
    atm: &str,
    datm: &str,
) -> (r: Option<String>)
    ensures
        match r {
            Some(s) => rendered_email_body(source@, recipient_name@, atm@, datm@) == Some(s@),
            None => rendered_email_body(source@, recipient_name@, atm@, datm@) is None,
        },
{
    let mut ctx = std::collections::BTreeMap::new();
    ctx.insert("recipient_name", recipient_name);
    ctx.insert("atm", atm);
    ctx.insert("datm", datm);
    env.render_named_str("body", source, ctx).ok()
}

/// Why an email could not be made.
#[derive(Debug, Clone, PartialEq, Eq)]
pub enum EmailError {
    /// No template has this name.
    UnknownTemplate(String),
    /// The template engine refused the template.
    Render,
}

/// An email ready to send.
#[derive(Debug)]
pub struct EmailContent {
    pub subject: String,
    pub body: String,
}

/// The template a name selects.
fn select_template<'a>(config: &'a Config, name: &str) -> (t: Option<&'a ConfigEmailTemplate>)
    ensures
        match template_for(*config, name@) {
            Some(ct) => t matches Some(x) && *x == ct,
            None => t is None,
        },
{
    let n = chars_of(name);
    if chars_eq(&n, &chars_of("visitor_accepted")) {
        Some(&config.email.visitor_accepted_template)
    } else if chars_eq(&n, &chars_of("visitor_denied")) {
        Some(&config.email.visitor_denied_template)
    } else if chars_eq(&n, &chars_of("visitor_removed")) {
        Some(&config.email.visitor_removed_template)
    } else {
        None
    }
}

/// The subject and body of the email `template_name` names, for the
/// recipient, signed by the Air Traffic Manager and deputy found among
/// `managers`.
pub fn email_content(
    config: &Config,
    managers: &Vec<Controller>,
    recipient_name: &str,
    template_name: &str,
) -> (r: Result<EmailContent, EmailError>)
    ensures
        match template_for(*config, template_name@) {
            None => r matches Err(EmailError::UnknownTemplate(n)) && n@ == template_name@,
            Some(t) => match rendered_email_body(
                t.body@,
                recipient_name@,
                atm_signature(managers@),
                datm_signature(managers@),
            ) {
                Some(body) => r matches Ok(c) && c.subject@ == t.subject@ && c.body@ == body,
                None => r matches Err(EmailError::Render),
            },
        },
{
    let template = match select_template(config, template_name) {
        Some(t) => t,
        None => {
            return Err(EmailError::UnknownTemplate(String::from_str(template_name)));
        },
    };
    let atm = signature_exec(managers, "ATM", Some("DATM"));
    let datm = signature_exec(managers, "DATM", None);
    let env = new_environment();
    match render_body(&env, template.body.as_str(), recipient_name, atm.as_str(), datm.as_str()) {
        Some(body) => Ok(EmailContent { subject: template.subject.clone(), body }),
        None => Err(EmailError::Render),
    }
}

} // verus!
