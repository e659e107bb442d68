//! The kernel settings conntrack export depends on.

use vstd::prelude::*;

verus! {

/// One kernel setting.
#[derive(Debug, Clone, Copy)]
pub struct Sysctl {
    pub path: &'static str,
    pub value: &'static str,
    /// Whether the exporter is of no use without it.
    pub required: bool,
    /// What the setting is there for.
    pub purpose: &'static str,
}

/// `settings` are those to make at startup, in order.
pub open spec fn are_conntrack_settings(settings: Seq<Sysctl>, no_sysctl: bool) -> bool {
    &&& no_sysctl ==> settings.len() == 0
    &&& !no_sysctl ==> {
        &&& settings.len() == 2
        &&& settings[0].path@ == "/proc/sys/net/netfilter/nf_conntrack_acct"@
        &&& settings[0].value@ == "1"@
        &&& !settings[0].required
        &&& settings[0].purpose@ == "conntrack accounting"@
        &&& settings[1].path@ == "/proc/sys/net/netfilter/nf_conntrack_events"@
        &&& settings[1].value@ == "1"@
        &&& settings[1].required
        &&& settings[1].purpose@ == "conntrack event delivery"@
    }
}

/// The settings to make at startup, in order. Without accounting every counter
/// is zero, which is worth a warning; without event delivery there is nothing
/// to export at all, which is fatal. An operator can ask for both to be left
/// alone.
pub fn conntrack_sysctl_settings(no_sysctl: bool) -> (settings: Vec<Sysctl>)
    ensures
        are_conntrack_settings(settings@, no_sysctl),
{
    if no_sysctl {
        return Vec::new();
    }
    vec![
        Sysctl {
            path: "/proc/sys/net/netfilter/nf_conntrack_acct",
            value: "1",
            required: false,
            purpose: "conntrack accounting",
        },
        Sysctl {
            path: "/proc/sys/net/netfilter/nf_conntrack_events",
            value: "1",
            required: true,
            purpose: "conntrack event delivery",
        },
    ]
}

/// The characters with the Unicode property `White_Space`.
pub open spec fn is_white_space(c: char) -> bool {
    let code = c as u32;
    ||| 0x9 <= code <= 0xD
    ||| code == 0x20
    ||| code == 0x85
    ||| code == 0xA0
    ||| code == 0x1680
    ||| 0x2000 <= code <= 0x200A
    ||| code == 0x2028
    ||| code == 0x2029
    ||| code == 0x202F
    ||| code == 0x205F
    ||| code == 0x3000
}

/// A text without the white space at its ends.
pub open spec fn trimmed(text: Seq<char>) -> Seq<char>
    decreases text.len(),
{
    if text.len() > 0 && is_white_space(text.first()) {
        trimmed(text.drop_first())
    } else if text.len() > 0 && is_white_space(text.last()) {
        trimmed(text.drop_last())
    } else {
        text
    }
}

/// `str::trim`: the text without leading and trailing white space, which is
/// what the Unicode property `White_Space` says it is.
#[verifier::external_body]
fn trim(text: &str) -> (inner: &str)
    ensures
        inner@ == trimmed(text@),
{
    text.trim()
}

/// What has to be written to a setting that currently reads `current`, if
/// anything: the value, on a line of its own, where the setting has another one.
pub fn sysctl_update(current: &str, value: &str) -> (update: Option<String>)
    ensures
        match update {
            Some(line) => trimmed(current@) != value@ && line@ == value@ + "\n"@,
            None => trimmed(current@) == value@,
        },
{
    let reads: String = trim(current).to_owned();
    let wanted: String = value.to_owned();
    if reads == wanted {
        return None;
    }
    let mut line: String = wanted;
    line.append("\n");
    Some(line)
}

/// What failing to make a setting means.
#[derive(Debug, Clone, Copy, PartialEq, Eq, Structural)]
pub enum SysctlFailure {
    /// The exporter must not start.
    Fatal,
    /// The exporter goes on, and says so.
    Warn,
}

impl Sysctl {
    /// What failing to make this setting means.
    pub fn failure(&self) -> (failure: SysctlFailure)
        ensures
            failure == (if self.required {
                SysctlFailure::Fatal
            } else {
                SysctlFailure::Warn
            }),
    {
        if self.required {
            SysctlFailure::Fatal
        } else {
            SysctlFailure::Warn
        }
    }
}

/// Trimming takes away white space at both ends, all of it, and nothing else.
pub proof fn law_trimming(front: Seq<char>, inner: Seq<char>, back: Seq<char>)
    requires
        forall|i: int| 0 <= i < front.len() ==> is_white_space(#[trigger] front[i]),
        forall|i: int| 0 <= i < back.len() ==> is_white_space(#[trigger] back[i]),
        inner.len() > 0 ==> !is_white_space(inner[0]) && !is_white_space(
            inner[inner.len() - 1],
        ),
    ensures
        trimmed(front + inner + back) == inner,
    decreases front.len() + back.len(),
{
    let text = front + inner + back;
    if front.len() > 0 {
        let shorter = front.drop_first();
        assert forall|i: int| 0 <= i < shorter.len() implies is_white_space(
            #[trigger] shorter[i],
        ) by {
            assert(is_white_space(front[i + 1]));
        }
        law_trimming(shorter, inner, back);
        assert(is_white_space(front[0]) && text.first() == front[0]);
        assert(text.drop_first() == shorter + inner + back);
    } else if back.len() > 0 {
        if inner.len() == 0 {
            let shorter = back.drop_first();
            assert forall|i: int| 0 <= i < shorter.len() implies is_white_space(
                #[trigger] shorter[i],
            ) by {
                assert(is_white_space(back[i + 1]));
            }
            law_trimming(front, inner, shorter);
            assert(is_white_space(back[0]) && text.first() == back[0]);
            assert(text.drop_first() == front + inner + shorter);
        } else {
            let shorter = back.drop_last();
            assert forall|i: int| 0 <= i < shorter.len() implies is_white_space(
                #[trigger] shorter[i],
            ) by {
                assert(is_white_space(back[i]));
            }
            law_trimming(front, inner, shorter);
            assert(is_white_space(back[back.len() - 1]) && text.last() == back[back.len() - 1]);
            assert(text.first() == inner[0]);
            assert(text.drop_last() == front + inner + shorter);
        }
    } else {
        assert(text == inner);
        if inner.len() > 0 {
            assert(text.first() == inner[0] && text.last() == inner[inner.len() - 1]);
        }
    }
}

/// Among the characters a kernel setting can hold, white space is the space, the tab, and
/// the line feed with its four neighbours up to the carriage return.
pub proof fn law_ascii_white_space(c: char)
    requires
        (c as u32) < 0x80,
    ensures
        is_white_space(c) <==> c == ' ' || c == '\t' || c == '\n' || c == '\r' || c as u32 == 0xB
            || c as u32 == 0xC,
{
}

} // verus!
