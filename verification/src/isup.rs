//! Optional ISUP-aware screening of transiting messages (service indicator 5).
//!
//! A tenant's ordered rules match on the ISUP message type and on leading
//! prefixes of the called and calling numbers; the first match wins. A message
//! that no rule matches, or that does not decode, takes the default action.
use crate::config::{IsupScreening, ScreenAction, ScreenMatch, ScreenRule};
use crate::content::view::text_of;
use crate::metrics::ScreenReason;
use crate::sccp::gtt::copy_text;
use crate::sccp::message::slice_text;
use crate::text::{begins_with, same_ignoring_case, starts_with, alike};
use vstd::prelude::*;
use vstd::string::*;

verus! {

/// The acronym of an ISUP message type by its code, where
/// `itu_isup::MessageType` names one.
pub uninterp spec fn isup_acronym(code: u8) -> Option<Seq<char>>;

/// Calls `itu_isup::MessageType::from_u8` and `acronym`. A code that the crate
/// does not name has none. The outcome is the named one.
#[verifier::external_body]
fn acronym_of(code: u8) -> (r: Option<&'static str>)
    ensures
        slice_text(r) == isup_acronym(code),
{
    match ::itu_isup::MessageType::from_u8(code) {
        ::itu_isup::MessageType::Other(_) => None,
        named => Some(named.acronym()),
    }
}

/// The first code from `from` on whose acronym is like `name`, whatever the case
/// of its letters.
pub open spec fn type_named(name: Seq<char>, from: int) -> Option<u8>
    decreases 256 - from,
{
    if from < 0 || from > 255 {
        None
    } else {
        match isup_acronym(from as u8) {
            Some(a) => if alike(a, name) {
                Some(from as u8)
            } else {
                type_named(name, from + 1)
            },
            None => type_named(name, from + 1),
        }
    }
}

/// The code of the ISUP message type with this acronym (`iam`, `rel`, ...), in
/// any case of letters, or `None` if there is no such type.
pub fn message_type_from_name(name: &str) -> (r: Option<u8>)
    ensures
        r == type_named(name@, 0),
{
    let mut code: u8 = 0;
    loop
        invariant
            type_named(name@, 0) == type_named(name@, code as int),
        decreases 255 - code,
    {
        match acronym_of(code) {
            Some(a) => {
                if same_ignoring_case(a, name) {
                    return Some(code);
                }
            },
            None => {},
        }
        if code == 255 {
            proof {
                assert(type_named(name@, 256) is None);
            }
            return None;
        }
        code += 1;
    }
}

/// What screening reads of a decoded ISUP message.
#[derive(Clone, Debug, PartialEq, Eq)]
pub struct IsupMessage {
    /// The message type code.
    pub message_type: u8,
    /// The called number's digits, if it is there and decodes.
    pub called: Option<String>,
    /// The calling number's digits, if it is there and decodes.
    pub calling: Option<String>,
}

/// What an [`IsupMessage`] holds.
pub struct IsupModel {
    pub message_type: u8,
    pub called: Option<Seq<char>>,
    pub calling: Option<Seq<char>>,
}

impl View for IsupMessage {
    type V = IsupModel;

    open spec fn view(&self) -> IsupModel {
        IsupModel {
            message_type: self.message_type,
            called: text_of(self.called),
            calling: text_of(self.calling),
        }
    }
}

/// The outcome of decoding an ISUP message.
pub open spec fn isup_outcome(r: Result<IsupMessage, String>) -> Result<IsupModel, Seq<char>> {
    match r {
        Ok(m) => Ok(m@),
        Err(e) => Err(e@),
    }
}

/// What `itu_isup::Message::decode`, and `find` and `as_number` for the called and
/// calling party number, make of some octets.
pub uninterp spec fn isup_decoded(bytes: Seq<u8>) -> Result<IsupModel, Seq<char>>;

/// Calls `itu_isup::Message::decode` and reads the two numbers through `find` and
/// `as_number`. The outcome is the named one.
#[verifier::external_body]
fn isup_decode(payload: &[u8]) -> (r: Result<IsupMessage, String>)
    ensures
        isup_outcome(r) == isup_decoded(payload@),
{
    let m = ::itu_isup::Message::decode(payload).map_err(|e| e.to_string())?;
    let called = m.find(::itu_isup::ParameterType::CalledPartyNumber).and_then(|p| p.as_number().ok());
    let calling = m.find(::itu_isup::ParameterType::CallingPartyNumber).and_then(|p| p.as_number().ok());
    Ok(IsupMessage { message_type: m.message_type.value(), called: called.map(|n| n.digits), calling: calling.map(|n| n.digits) })
}

/// A screening rule ready for matching.
#[derive(Clone, Debug)]
pub struct CompiledScreen {
    pub name: String,
    pub message_type: Option<u8>,
    pub called_prefix: Option<String>,
    pub calling_prefix: Option<String>,
    pub action: ScreenAction,
}

/// The message type a match clause names: a wildcard if it names none, or none
/// that is known.
pub open spec fn type_of(m: ScreenMatch) -> Option<u8> {
    match m.message_type {
        Some(n) => type_named(n@, 0),
        None => None,
    }
}

/// A number criterion: a wildcard if there is none, else the number must be there
/// and begin with the prefix.
pub open spec fn number_matches(prefix: Option<String>, number: Option<Seq<char>>) -> bool {
    prefix matches Some(p) ==> (number matches Some(d) && begins_with(d, p@))
}

impl CompiledScreen {
    /// This is the compiled form of a configured rule.
    pub open spec fn compiled_from(self, r: ScreenRule) -> bool {
        &&& self.name == r.name
        &&& self.message_type == type_of(r.match_)
        &&& self.called_prefix == r.match_.called_prefix
        &&& self.calling_prefix == r.match_.calling_prefix
        &&& self.action == r.action
    }

    /// All criteria hold of a message; absent ones are wildcards.
    pub open spec fn holds(self, m: IsupModel) -> bool {
        &&& self.message_type matches Some(t) ==> m.message_type == t
        &&& number_matches(self.called_prefix, m.called)
        &&& number_matches(self.calling_prefix, m.calling)
    }

    /// Compiles a configured rule.
    pub fn compile(r: &ScreenRule) -> (c: CompiledScreen)
        ensures
            c.compiled_from(*r),
    {
        CompiledScreen {
            name: r.name.clone(),
            message_type: match &r.match_.message_type {
                Some(n) => message_type_from_name(n.as_str()),
                None => None,
            },
            called_prefix: copy_text(&r.match_.called_prefix),
            calling_prefix: copy_text(&r.match_.calling_prefix),
            action: r.action,
        }
    }

    /// Whether all criteria hold of a message.
    pub fn matches(&self, msg: &IsupMessage) -> (r: bool)
        ensures
            r == self.holds(msg@),
    {
        match self.message_type {
            Some(t) => {
                if msg.message_type != t {
                    return false;
                }
            },
            None => {},
        }
        number_ok(&self.called_prefix, &msg.called) && number_ok(&self.calling_prefix, &msg.calling)
    }
}

fn number_ok(prefix: &Option<String>, number: &Option<String>) -> (r: bool)
    ensures
        r == number_matches(*prefix, text_of(*number)),
{
    match prefix {
        Some(p) => match number {
            Some(d) => starts_with(d.as_str(), p.as_str()),
            None => false,
        },
        None => true,
    }
}

/// The verdict of screening one message.
#[derive(Clone, Debug, PartialEq, Eq)]
pub enum Screened {
    /// Transit unchanged.
    Pass,
    /// It would not decode and the default is to allow: transit, with the reason
    /// to log.
    PassUndecoded { error: String },
    /// Drop: it matched a block rule.
    BlockRule { rule: String },
    /// Drop: no rule matched and the default is to block.
    BlockDefault,
    /// Drop: it would not decode and the default is to block.
    BlockUndecoded { error: String },
}

/// What a [`Screened`] verdict says.
pub enum Verdict {
    Pass,
    PassUndecoded { error: Seq<char> },
    BlockRule { rule: Seq<char> },
    BlockDefault,
    BlockUndecoded { error: Seq<char> },
}

impl View for Screened {
    type V = Verdict;

    open spec fn view(&self) -> Verdict {
        match *self {
            Screened::Pass => Verdict::Pass,
            Screened::PassUndecoded { error } => Verdict::PassUndecoded { error: error@ },
            Screened::BlockRule { rule } => Verdict::BlockRule { rule: rule@ },
            Screened::BlockDefault => Verdict::BlockDefault,
            Screened::BlockUndecoded { error } => Verdict::BlockUndecoded { error: error@ },
        }
    }
}

impl Verdict {
    /// The reason class of a drop, none for a pass.
    pub open spec fn reason(self) -> Option<ScreenReason> {
        match self {
            Verdict::Pass => None,
            Verdict::PassUndecoded { error } => None,
            Verdict::BlockRule { rule } => Some(ScreenReason::Rule),
            Verdict::BlockDefault => Some(ScreenReason::Default),
            Verdict::BlockUndecoded { error } => Some(ScreenReason::DecodeError),
        }
    }
}

impl Screened {
    /// The reason class of a drop, `None` for a pass.
    pub fn reason(&self) -> (r: Option<ScreenReason>)
        ensures
            r == self@.reason(),
    {
        match self {
            Screened::Pass => None,
            Screened::PassUndecoded { .. } => None,
            Screened::BlockRule { .. } => Some(ScreenReason::Rule),
            Screened::BlockDefault => Some(ScreenReason::Default),
            Screened::BlockUndecoded { .. } => Some(ScreenReason::DecodeError),
        }
    }
}

/// The first rule from position `from` on that holds of a message.
pub open spec fn first_screen(rules: Seq<CompiledScreen>, m: IsupModel, from: int) -> Option<
    CompiledScreen,
>
    decreases rules.len() - from,
{
    if from < 0 || from >= rules.len() {
        None
    } else if rules[from].holds(m) {
        Some(rules[from])
    } else {
        first_screen(rules, m, from + 1)
    }
}

/// A tenant's compiled screening.
#[derive(Clone, Debug)]
pub struct IsupScreen {
    pub default: ScreenAction,
    pub rules: Vec<CompiledScreen>,
}

impl IsupScreen {
    /// The verdict on a decoded message: the first rule that holds decides, else
    /// the default.
    pub open spec fn verdict(&self, m: IsupModel) -> Verdict {
        match first_screen(self.rules@, m, 0) {
            Some(rule) => match rule.action {
                ScreenAction::Block => Verdict::BlockRule { rule: rule.name@ },
                ScreenAction::Allow => Verdict::Pass,
            },
            None => match self.default {
                ScreenAction::Block => Verdict::BlockDefault,
                ScreenAction::Allow => Verdict::Pass,
            },
        }
    }

    /// The verdict on the outcome of decoding a message: one that did not decode
    /// takes the default action.
    pub open spec fn verdict_on(&self, d: Result<IsupModel, Seq<char>>) -> Verdict {
        match d {
            Ok(m) => self.verdict(m),
            Err(e) => match self.default {
                ScreenAction::Block => Verdict::BlockUndecoded { error: e },
                ScreenAction::Allow => Verdict::PassUndecoded { error: e },
            },
        }
    }

    /// This is the compiled form of a screening block.
    pub open spec fn compiled_from(&self, cfg: IsupScreening) -> bool {
        &&& self.default == cfg.default
        &&& self.rules@.len() == cfg.rules@.len()
        &&& forall|i: int|
            0 <= i < cfg.rules@.len() ==> (#[trigger] self.rules@[i]).compiled_from(cfg.rules@[i])
    }

    /// Compiles a screening block.
    pub fn compile(cfg: &IsupScreening) -> (r: IsupScreen)
        ensures
            r.compiled_from(*cfg),
    {
        let mut rules: Vec<CompiledScreen> = Vec::new();
        let mut i: usize = 0;
        while i < cfg.rules.len()
            invariant
                i <= cfg.rules@.len(),
                rules@.len() == i,
                forall|k: int| 0 <= k < i ==> (#[trigger] rules@[k]).compiled_from(cfg.rules@[k]),
            decreases cfg.rules.len() - i,
        {
            rules.push(CompiledScreen::compile(&cfg.rules[i]));
            i += 1;
        }
        IsupScreen { default: cfg.default, rules }
    }

    /// The verdict on a decoded message.
    pub fn evaluate(&self, msg: &IsupMessage) -> (r: Screened)
        ensures
            r@ == self.verdict(msg@),
    {
        let mut i: usize = 0;
        while i < self.rules.len()
            invariant
                i <= self.rules@.len(),
                first_screen(self.rules@, msg@, 0) == first_screen(self.rules@, msg@, i as int),
            decreases self.rules.len() - i,
        {
            let rule = &self.rules[i];
            if rule.matches(msg) {
                return match rule.action {
                    ScreenAction::Block => Screened::BlockRule { rule: rule.name.clone() },
                    ScreenAction::Allow => Screened::Pass,
                };
            }
            i += 1;
        }
        match self.default {
            ScreenAction::Block => Screened::BlockDefault,
            ScreenAction::Allow => Screened::Pass,
        }
    }

    /// The verdict on the outcome of decoding a message.
    pub fn evaluate_outcome(&self, msg: Result<IsupMessage, String>) -> (r: Screened)
        ensures
            r@ == self.verdict_on(isup_outcome(msg)),
    {
        match msg {
            Ok(m) => self.evaluate(&m),
            Err(error) => match self.default {
                ScreenAction::Block => Screened::BlockUndecoded { error },
                ScreenAction::Allow => Screened::PassUndecoded { error },
            },
        }
    }

    /// Decodes a payload as an ISUP message and screens it.
    pub fn screen(&self, payload: &[u8]) -> (r: Screened)
        ensures
            r@ == self.verdict_on(isup_decoded(payload@)),
    {
        self.evaluate_outcome(isup_decode(payload))
    }
}

/// A message that does not decode is dropped exactly when the default is to
/// block, and then for that reason.
pub proof fn law_undecoded_takes_default(s: IsupScreen, error: Seq<char>)
    ensures
        s.default == ScreenAction::Allow ==> s.verdict_on(Err(error)).reason() is None,
        s.default == ScreenAction::Block ==> s.verdict_on(Err(error)).reason() == Some(
            ScreenReason::DecodeError,
        ),
{
}

/// Without rules every message takes the default action.
pub proof fn law_no_rules_is_default(s: IsupScreen, m: IsupModel)
    requires
        s.rules@.len() == 0,
    ensures
        s.default == ScreenAction::Allow ==> s.verdict(m) == Verdict::Pass,
        s.default == ScreenAction::Block ==> s.verdict(m) == Verdict::BlockDefault,
{
}

/// A number that a rule asks for: there, and beginning with the prefix.
pub open spec fn number_begins(prefix: Option<String>, number: Option<String>) -> bool {
    prefix is None || (number is Some && prefix->Some_0@.is_prefix_of(number->Some_0@))
}

/// A message of the type that a rule names. A name that no message type has asks for
/// nothing.
pub open spec fn is_of_type(name: Option<String>, code: u8) -> bool {
    name matches Some(n) ==> {
        ||| forall|c: u8| !is_acronym(c, n@)
        ||| is_acronym(code, n@) && forall|c: u8| c < code ==> !is_acronym(c, n@)
    }
}

/// A code is of the message type with this acronym, whatever the case of its letters.
pub open spec fn is_acronym(code: u8, name: Seq<char>) -> bool {
    isup_acronym(code) matches Some(a) && alike(a, name)
}

/// A configured rule fits a message: the message is of the type that it names, and each
/// number that it asks for is there and begins with the prefix.
pub open spec fn fits_message(rule: ScreenRule, msg: IsupMessage) -> bool {
    &&& is_of_type(rule.match_.message_type, msg.message_type)
    &&& number_begins(rule.match_.called_prefix, msg.called)
    &&& number_begins(rule.match_.calling_prefix, msg.calling)
}

proof fn type_named_is_least(name: Seq<char>, from: int)
    requires
        0 <= from <= 256,
    ensures
        match type_named(name, from) {
            Some(c) => from <= c && is_acronym(c, name) && forall|b: u8|
                from <= b < c ==> !#[trigger] is_acronym(b, name),
            None => forall|b: u8| from <= b ==> !#[trigger] is_acronym(b, name),
        },
    decreases 256 - from,
{
    if from < 256 {
        type_named_is_least(name, from + 1);
    }
}

proof fn begins_is_prefix(d: Seq<char>, p: Seq<char>)
    ensures
        begins_with(d, p) == p.is_prefix_of(d),
{
    if p.len() <= d.len() {
        assert(d.subrange(0, p.len() as int) =~= p <==> p =~= d.subrange(0, p.len() as int));
    }
}

/// A compiled rule holds of a message exactly if the configured rule fits it: its type,
/// its called and its calling number all count, and an absent criterion asks nothing.
pub proof fn law_rule_asks_for_every_criterion(
    c: CompiledScreen,
    rule: ScreenRule,
    msg: IsupMessage,
)
    requires
        c.compiled_from(rule),
    ensures
        c.holds(msg@) <==> fits_message(rule, msg),
{
    if rule.match_.message_type is Some {
        type_named_is_least(rule.match_.message_type->Some_0@, 0);
    }
    if rule.match_.called_prefix is Some && msg.called is Some {
        begins_is_prefix(msg.called->Some_0@, rule.match_.called_prefix->Some_0@);
    }
    if rule.match_.calling_prefix is Some && msg.calling is Some {
        begins_is_prefix(msg.calling->Some_0@, rule.match_.calling_prefix->Some_0@);
    }
}

proof fn first_screen_is_first(rules: Seq<CompiledScreen>, m: IsupModel, from: int, i: int)
    requires
        0 <= from <= i < rules.len(),
        rules[i].holds(m),
        forall|j: int| from <= j < i ==> !(#[trigger] rules[j]).holds(m),
    ensures
        first_screen(rules, m, from) == Some(rules[i]),
    decreases i - from,
{
    if from < i {
        first_screen_is_first(rules, m, from + 1, i);
    }
}

proof fn first_screen_is_none(rules: Seq<CompiledScreen>, m: IsupModel, from: int)
    requires
        0 <= from,
        forall|j: int| from <= j < rules.len() ==> !(#[trigger] rules[j]).holds(m),
    ensures
        first_screen(rules, m, from) is None,
    decreases rules.len() - from,
{
    if from < rules.len() {
        first_screen_is_none(rules, m, from + 1);
    }
}

/// The first configured rule that fits a message decides, whatever rules follow: an
/// allow rule lets it pass, a block rule drops it under the rule's name.
pub proof fn law_first_fitting_rule_decides(
    s: IsupScreen,
    cfg: IsupScreening,
    msg: IsupMessage,
    i: int,
)
    requires
        s.compiled_from(cfg),
        0 <= i < cfg.rules@.len(),
        fits_message(cfg.rules@[i], msg),
        forall|j: int| 0 <= j < i ==> !fits_message(#[trigger] cfg.rules@[j], msg),
    ensures
        cfg.rules@[i].action == ScreenAction::Allow ==> s.verdict(msg@) == Verdict::Pass,
        cfg.rules@[i].action == ScreenAction::Block ==> s.verdict(msg@) == (Verdict::BlockRule {
            rule: cfg.rules@[i].name@,
        }),
{
    assert forall|j: int| 0 <= j <= i implies (#[trigger] s.rules@[j]).holds(msg@)
        == fits_message(cfg.rules@[j], msg) by {
        law_rule_asks_for_every_criterion(s.rules@[j], cfg.rules@[j], msg);
    }
    first_screen_is_first(s.rules@, msg@, 0, i);
}

/// A message that no configured rule fits takes the default action.
pub proof fn law_unmatched_takes_default(s: IsupScreen, cfg: IsupScreening, msg: IsupMessage)
    requires
        s.compiled_from(cfg),
        forall|j: int|
            0 <= j < cfg.rules@.len() ==> !fits_message(#[trigger] cfg.rules@[j], msg),
    ensures
        cfg.default == ScreenAction::Allow ==> s.verdict(msg@) == Verdict::Pass,
        cfg.default == ScreenAction::Block ==> s.verdict(msg@) == Verdict::BlockDefault,
{
    assert forall|j: int| 0 <= j < s.rules@.len() implies !(#[trigger] s.rules@[j]).holds(msg@) by {
        law_rule_asks_for_every_criterion(s.rules@[j], cfg.rules@[j], msg);
        assert(!fits_message(cfg.rules@[j], msg));
    }
    first_screen_is_none(s.rules@, msg@, 0);
}

/// A message passes exactly if nothing is counted as screened, and a drop is counted for
/// what dropped it: a rule, the default, or a payload that does not decode.
pub proof fn law_drop_reason(s: IsupScreen, cfg: IsupScreening, msg: IsupMessage, error: Seq<char>)
    requires
        s.compiled_from(cfg),
    ensures
        s.verdict_on(Ok(msg@)) == s.verdict(msg@),
        s.verdict(msg@) == Verdict::Pass || s.verdict(msg@) == Verdict::BlockDefault || s.verdict(
            msg@,
        ) is BlockRule,
        s.verdict(msg@).reason() is None <==> s.verdict(msg@) == Verdict::Pass,
        s.verdict(msg@) is BlockRule ==> s.verdict(msg@).reason() == Some(ScreenReason::Rule),
        s.verdict(msg@) == Verdict::BlockDefault ==> s.verdict(msg@).reason() == Some(
            ScreenReason::Default,
        ),
        cfg.default == ScreenAction::Allow ==> s.verdict_on(Err(error)) == (
        Verdict::PassUndecoded { error }),
        cfg.default == ScreenAction::Block ==> s.verdict_on(Err(error)) == (
        Verdict::BlockUndecoded { error }),
{
}

} // verus!
