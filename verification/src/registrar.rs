//! The two-step exchange with the upstream registrar.
//!
//! A successful update clears the existing alias for the subdomain and then
//! adds the new one, strictly in that order, over one fresh connection.  The
//! registrar's plain-text responses put their result marker on the second
//! body line: a line starting with `Success` means the step went through,
//! any other line is the registrar's literal rejection reason, and a body
//! without a second line signals a transport or protocol anomaly.
//!
//! The exchange itself is a state machine over the response bodies.  The
//! caller performs the actual sends and hands each response body (or a
//! transport failure) back; every decision is made here.

use vstd::prelude::*;
use vstd::string::*;

use crate::split::{spec_split_once, split_once_str, str_eq};

verus! {

/// Strips one trailing carriage return, as `str::lines` does.
pub open spec fn strip_cr(l: Seq<char>) -> Seq<char> {
    if l.len() > 0 && l[l.len() - 1] == '\r' {
        l.subrange(0, l.len() - 1)
    } else {
        l
    }
}

/// The lines of `s`, with the semantics of `str::lines`: split on `\n`,
/// strip one trailing `\r` from each line, and a final `\n` produces no
/// trailing empty line.
pub open spec fn spec_lines(s: Seq<char>) -> Seq<Seq<char>>
    decreases s.len(),
    via spec_lines_dec
{
    if s.len() == 0 {
        Seq::empty()
    } else {
        match spec_split_once(s, seq!['\n']) {
            None => seq![strip_cr(s)],
            Some(ab) => seq![strip_cr(ab.0)] + spec_lines(ab.1),
        }
    }
}

#[via_fn]
proof fn spec_lines_dec(s: Seq<char>) {
    if s.len() != 0 && spec_split_once(s, seq!['\n']) is Some {
        crate::split::lemma_find_from_spec(s, seq!['\n'], 0);
    }
}

/// The registrar's result line: the second line of the response body, if
/// the body has one.
pub open spec fn spec_result_line(body: Seq<char>) -> Option<Seq<char>> {
    if spec_lines(body).len() >= 2 {
        Some(spec_lines(body)[1])
    } else {
        None
    }
}

/// The marker that opens every successful result line.
pub open spec fn success_prefix() -> Seq<char> {
    seq!['S', 'u', 'c', 'c', 'e', 's', 's']
}

/// A result line reporting success: it starts with `Success`.
pub open spec fn is_success_line(l: Seq<char>) -> bool {
    l.len() >= 7 && l.subrange(0, 7) == success_prefix()
}

/// Extracts the registrar's result line from a response body, exactly as
/// `spec_result_line` describes.
pub fn result_line<'a>(body: &'a str) -> (r: Option<&'a str>)
    ensures
        match r {
            Some(l) => spec_result_line(body@) == Some(l@),
            None => spec_result_line(body@) is None,
        },
{
    proof {
        reveal_strlit("\n");
        assert("\n"@ =~= seq!['\n']);
    }
    match split_once_str(body, "\n") {
        None => {
            proof {
                assert(spec_lines(body@).len() < 2);
            }
            None
        },
        Some((first, b)) => {
            proof {
                crate::split::lemma_find_from_spec(body@, seq!['\n'], 0);
                assert(body@.len() != 0);
                assert(spec_lines(body@) == seq![strip_cr(first@)] + spec_lines(b@));
            }
            if b.unicode_len() == 0 {
                proof {
                    assert(spec_lines(b@) =~= Seq::<Seq<char>>::empty());
                    assert(spec_lines(body@).len() < 2);
                }
                None
            } else {
                let second: &str = match split_once_str(b, "\n") {
                    None => b,
                    Some((c, _)) => c,
                };
                proof {
                    assert(spec_lines(b@)[0] == strip_cr(second@));
                    assert(spec_lines(b@).len() >= 1);
                    assert(spec_lines(body@)[1] == strip_cr(second@));
                    assert(spec_lines(body@).len() >= 2);
                }
                let n = second.unicode_len();
                let stripped: &str = if n > 0 && second.get_char(n - 1) == '\r' {
                    second.substring_char(0, n - 1)
                } else {
                    second
                };
                proof {
                    assert(stripped@ == strip_cr(second@));
                }
                Some(stripped)
            }
        },
    }
}

/// Whether a result line starts with `Success`.
pub fn line_is_success(l: &str) -> (r: bool)
    ensures
        r == is_success_line(l@),
{
    proof {
        reveal_strlit("Success");
        assert("Success"@ =~= success_prefix());
    }
    let n = l.unicode_len();
    if n < 7 {
        false
    } else {
        let head = l.substring_char(0, 7);
        str_eq(head, "Success")
    }
}

/// The two requests of the exchange, in order.
#[derive(Clone, Copy, PartialEq, Eq, Structural, Debug)]
pub enum RegStep {
    /// `zone/clear`: remove the existing alias for the subdomain.
    Clear,
    /// `zone/add_alias`: add the alias for the new address.
    AddAlias,
}

/// The states of the exchange.  `Aliased`, `Rejected` and `Failed` are
/// terminal.
#[derive(Debug)]
pub enum ExchangeState {
    /// Fresh connection; the clear request is owed.
    Connected,
    /// Clear succeeded; the add-alias request is owed.
    Cleared,
    /// Add-alias succeeded; the update is complete.
    Aliased,
    /// The registrar rejected a step; the payload is its literal result
    /// line.
    Rejected(String),
    /// The transport failed, or a response body lacked the expected line
    /// structure; the payload names the cause.
    Failed(String),
}

/// The mathematical image of an `ExchangeState`.
pub enum StateView {
    Connected,
    Cleared,
    Aliased,
    Rejected(Seq<char>),
    Failed(Seq<char>),
}

impl View for ExchangeState {
    type V = StateView;

    open spec fn view(&self) -> StateView {
        match self {
            ExchangeState::Connected => StateView::Connected,
            ExchangeState::Cleared => StateView::Cleared,
            ExchangeState::Aliased => StateView::Aliased,
            ExchangeState::Rejected(r) => StateView::Rejected(r@),
            ExchangeState::Failed(r) => StateView::Failed(r@),
        }
    }
}

/// How an update ends, for the caller's log.
#[derive(Debug)]
pub enum UpdateOutcome {
    /// Both steps succeeded.
    Updated,
    /// The registrar rejected a step; the payload is its literal reason.
    RegistrarRejected(String),
    /// The transport failed or a response was malformed.
    TransportFailed(String),
}

/// The mathematical image of an `UpdateOutcome`.
pub enum OutcomeView {
    Updated,
    RegistrarRejected(Seq<char>),
    TransportFailed(Seq<char>),
}

impl View for UpdateOutcome {
    type V = OutcomeView;

    open spec fn view(&self) -> OutcomeView {
        match self {
            UpdateOutcome::Updated => OutcomeView::Updated,
            UpdateOutcome::RegistrarRejected(r) => OutcomeView::RegistrarRejected(r@),
            UpdateOutcome::TransportFailed(r) => OutcomeView::TransportFailed(r@),
        }
    }
}

/// The reason recorded when a response body lacks a second line.
pub open spec fn malformed_reason() -> Seq<char> {
    "malformed server response"@
}

/// The step the exchange still owes, if any.
pub open spec fn spec_pending(st: StateView) -> Option<RegStep> {
    match st {
        StateView::Connected => Some(RegStep::Clear),
        StateView::Cleared => Some(RegStep::AddAlias),
        _ => None,
    }
}

/// The state transition on receiving a response body: a success line
/// advances the exchange, any other result line is a terminal rejection
/// carrying that line, and a body without a result line is a terminal
/// failure.  Terminal states never move.
pub open spec fn spec_step(st: StateView, body: Seq<char>) -> StateView {
    match st {
        StateView::Connected => match spec_result_line(body) {
            None => StateView::Failed(malformed_reason()),
            Some(l) => if is_success_line(l) {
                StateView::Cleared
            } else {
                StateView::Rejected(l)
            },
        },
        StateView::Cleared => match spec_result_line(body) {
            None => StateView::Failed(malformed_reason()),
            Some(l) => if is_success_line(l) {
                StateView::Aliased
            } else {
                StateView::Rejected(l)
            },
        },
        _ => st,
    }
}

/// The state transition on a transport failure: terminal from any live
/// state, carrying the reported cause.
pub open spec fn spec_fail(st: StateView, reason: Seq<char>) -> StateView {
    match st {
        StateView::Connected => StateView::Failed(reason),
        StateView::Cleared => StateView::Failed(reason),
        _ => st,
    }
}

/// The outcome a terminal state reports; a live state has none yet.
pub open spec fn spec_outcome(st: StateView) -> Option<OutcomeView> {
    match st {
        StateView::Aliased => Some(OutcomeView::Updated),
        StateView::Rejected(l) => Some(OutcomeView::RegistrarRejected(l)),
        StateView::Failed(r) => Some(OutcomeView::TransportFailed(r)),
        _ => None,
    }
}

/// The view of an optional outcome.
pub open spec fn view_opt_outcome(o: Option<UpdateOutcome>) -> Option<OutcomeView> {
    match o {
        None => None,
        Some(v) => Some(v@),
    }
}

/// The form fields of the clear step.
pub open spec fn spec_clear_form(
    u: Seq<char>,
    p: Seq<char>,
    d: Seq<char>,
) -> Seq<(Seq<char>, Seq<char>)> {
    seq![
        ("username"@, u),
        ("password"@, p),
        ("domain_name"@, d),
        ("subdomain"@, "@"@),
        ("output_format"@, "plain"@),
        ("output_content_type"@, "plain"@),
    ]
}

/// The form fields of a step: the add-alias step carries the clear step's
/// fields plus the new address.
pub open spec fn spec_form(
    step: RegStep,
    u: Seq<char>,
    p: Seq<char>,
    d: Seq<char>,
    ip: Seq<char>,
) -> Seq<(Seq<char>, Seq<char>)> {
    match step {
        RegStep::Clear => spec_clear_form(u, p, d),
        RegStep::AddAlias => spec_clear_form(u, p, d).push(("ipaddr"@, ip)),
    }
}

/// One update exchange with the registrar: the credentials and target of
/// the update, and how far the exchange has come.
pub struct RegistrarExchange {
    /// Registrar account name.
    pub username: String,
    /// Registrar account password.
    pub password: String,
    /// The zone whose alias is replaced.
    pub domain: String,
    /// The address the new alias points to.
    pub ip: String,
    /// How far the exchange has come.
    pub state: ExchangeState,
}

impl RegistrarExchange {
    /// A fresh exchange: nothing sent yet, the clear step owed.
    pub fn new(username: String, password: String, domain: String, ip: String) -> (r: Self)
        ensures
            r.username@ == username@,
            r.password@ == password@,
            r.domain@ == domain@,
            r.ip@ == ip@,
            r.state@ == StateView::Connected,
    {
        RegistrarExchange { username, password, domain, ip, state: ExchangeState::Connected }
    }

    /// The request still owed, if the exchange is live.
    pub fn pending_step(&self) -> (r: Option<RegStep>)
        ensures
            r == spec_pending(self.state@),
    {
        match &self.state {
            ExchangeState::Connected => Some(RegStep::Clear),
            ExchangeState::Cleared => Some(RegStep::AddAlias),
            _ => None,
        }
    }

    /// The endpoint a step posts to.
    pub fn endpoint_url(step: RegStep) -> (r: &'static str)
        ensures
            step == RegStep::Clear ==> r@ == "https://api.reg.ru/api/regru2/zone/clear"@,
            step == RegStep::AddAlias ==> r@ == "https://api.reg.ru/api/regru2/zone/add_alias"@,
    {
        match step {
            RegStep::Clear => "https://api.reg.ru/api/regru2/zone/clear",
            RegStep::AddAlias => "https://api.reg.ru/api/regru2/zone/add_alias",
        }
    }

    /// The form fields a step posts, in order.
    pub fn form_fields(&self, step: RegStep) -> (r: Vec<(String, String)>)
        ensures
            r.deep_view() == spec_form(step, self.username@, self.password@, self.domain@, self.ip@),
    {
        let mut r: Vec<(String, String)> = Vec::new();
        r.push((String::from_str("username"), self.username.clone()));
        r.push((String::from_str("password"), self.password.clone()));
        r.push((String::from_str("domain_name"), self.domain.clone()));
        r.push((String::from_str("subdomain"), String::from_str("@")));
        r.push((String::from_str("output_format"), String::from_str("plain")));
        r.push((String::from_str("output_content_type"), String::from_str("plain")));
        if matches!(step, RegStep::AddAlias) {
            r.push((String::from_str("ipaddr"), self.ip.clone()));
            proof {
                assert(r.deep_view() =~~= spec_form(
                    step, self.username@, self.password@, self.domain@, self.ip@));
            }
        } else {
            proof {
                assert(r.deep_view() =~~= spec_form(
                    step, self.username@, self.password@, self.domain@, self.ip@));
            }
        }
        r
    }

    /// Feeds one response body to the exchange; the state moves exactly as
    /// `spec_step` says, and a terminal exchange never moves again.
    pub fn on_response(&mut self, body: &str)
        ensures
            final(self).state@ == spec_step(old(self).state@, body@),
            final(self).username@ == old(self).username@,
            final(self).password@ == old(self).password@,
            final(self).domain@ == old(self).domain@,
            final(self).ip@ == old(self).ip@,
    {
        let from_connected: bool = match &self.state {
            ExchangeState::Connected => true,
            ExchangeState::Cleared => false,
            _ => {
                return ;
            },
        };
        match result_line(body) {
            None => {
                self.state = ExchangeState::Failed(String::from_str("malformed server response"));
            },
            Some(l) => {
                if line_is_success(l) {
                    self.state = if from_connected {
                        ExchangeState::Cleared
                    } else {
                        ExchangeState::Aliased
                    };
                } else {
                    self.state = ExchangeState::Rejected(String::from_str(l));
                }
            },
        }
    }

    /// Records a transport failure; the state moves exactly as `spec_fail`
    /// says.
    pub fn on_transport_error(&mut self, reason: String)
        ensures
            final(self).state@ == spec_fail(old(self).state@, reason@),
            final(self).username@ == old(self).username@,
            final(self).password@ == old(self).password@,
            final(self).domain@ == old(self).domain@,
            final(self).ip@ == old(self).ip@,
    {
        match &self.state {
            ExchangeState::Connected | ExchangeState::Cleared => {
                self.state = ExchangeState::Failed(reason);
            },
            _ => {},
        }
    }

    /// The outcome of a terminal exchange, for the caller's log.
    pub fn outcome(&self) -> (r: Option<UpdateOutcome>)
        ensures
            view_opt_outcome(r) == spec_outcome(self.state@),
    {
        match &self.state {
            ExchangeState::Aliased => Some(UpdateOutcome::Updated),
            ExchangeState::Rejected(l) => Some(UpdateOutcome::RegistrarRejected(l.clone())),
            ExchangeState::Failed(r) => Some(UpdateOutcome::TransportFailed(r.clone())),
            _ => None,
        }
    }
}

} // verus!
