//! The front end's settings.

use vstd::prelude::*;

verus! {

/// The texts of a list of strings.
pub open spec fn strings_view(v: Seq<String>) -> Seq<Seq<char>> {
    Seq::new(v.len(), |i: int| v[i]@)
}

/// The texts of a list of commands, each a list of strings.
pub open spec fn commands_view(v: Seq<Vec<String>>) -> Seq<Seq<Seq<char>>> {
    Seq::new(v.len(), |i: int| strings_view(v[i]@))
}

/// The front end's settings: whether the window stays open after an action,
/// and the context commands offered for each kind of entry. A command is its
/// label, its program and the program's arguments.
#[derive(Debug, Clone, Default)]
#[allow(non_snake_case)]
pub struct Config {
    pub keepOpen: bool,
    pub PlainTextContextActions: Vec<Vec<String>>,
    pub AddressContextActions: Vec<Vec<String>>,
    pub ImageContextActions: Vec<Vec<String>>,
}

/// The settings as a file may give them, each one optional.
#[derive(Debug, Default)]
#[allow(non_snake_case)]
pub struct ConfigOptional {
    pub keepOpen: Option<bool>,
    pub PlainTextContextActions: Option<Vec<Vec<String>>>,
    pub AddressContextActions: Option<Vec<Vec<String>>>,
    pub ImageContextActions: Option<Vec<Vec<String>>>,
}

pub open spec fn default_plain_text_actions() -> Seq<Seq<Seq<char>>> {
    seq![seq!["notify"@, "notify-send"@]]
}

pub open spec fn default_address_actions() -> Seq<Seq<Seq<char>>> {
    seq![seq!["open"@, "xdg-open"@], seq!["notify"@, "notify-send"@]]
}

pub open spec fn default_image_actions() -> Seq<Seq<Seq<char>>> {
    seq![seq!["satty"@, "sh"@, "-c"@, "wl-paste | satty -f -"@]]
}

fn command_of(parts: &[&str]) -> (r: Vec<String>)
    ensures
        r@.len() == parts@.len(),
        forall|i: int| 0 <= i < parts@.len() ==> r@[i]@ == parts@[i]@,
{
    let mut out: Vec<String> = Vec::new();
    let mut i: usize = 0;
    while i < parts.len()
        invariant
            i <= parts@.len(),
            out@.len() == i,
            forall|j: int| 0 <= j < i ==> out@[j]@ == parts@[j]@,
        decreases parts@.len() - i,
    {
        out.push(parts[i].to_owned());
        i = i + 1;
    }
    out
}

/// The settings used where the file gives none: the window closes after an
/// action; text can be sent as a notification, an address opened or sent as
/// a notification, and an image edited in `satty`.
pub fn default_config() -> (r: Config)
    ensures
        !r.keepOpen,
        commands_view(r.PlainTextContextActions@) == default_plain_text_actions(),
        commands_view(r.AddressContextActions@) == default_address_actions(),
        commands_view(r.ImageContextActions@) == default_image_actions(),
{
    let notify = command_of(&["notify", "notify-send"]);
    let notify_too = command_of(&["notify", "notify-send"]);
    let open = command_of(&["open", "xdg-open"]);
    let satty = command_of(&["satty", "sh", "-c", "wl-paste | satty -f -"]);
    let mut plain: Vec<Vec<String>> = Vec::new();
    plain.push(notify);
    let mut address: Vec<Vec<String>> = Vec::new();
    address.push(open);
    address.push(notify_too);
    let mut image: Vec<Vec<String>> = Vec::new();
    image.push(satty);
    proof {
        assert(commands_view(plain@) =~= default_plain_text_actions()) by {
            assert(strings_view(plain@[0]@) =~= seq!["notify"@, "notify-send"@]);
        }
        assert(commands_view(address@) =~= default_address_actions()) by {
            assert(strings_view(address@[0]@) =~= seq!["open"@, "xdg-open"@]);
            assert(strings_view(address@[1]@) =~= seq!["notify"@, "notify-send"@]);
        }
        assert(commands_view(image@) =~= default_image_actions()) by {
            assert(strings_view(image@[0]@) =~= seq!["satty"@, "sh"@, "-c"@, "wl-paste | satty -f -"@]);
        }
    }
    Config {
        keepOpen: false,
        PlainTextContextActions: plain,
        AddressContextActions: address,
        ImageContextActions: image,
    }
}

/// The settings that a file gave, each missing one taken from `default_config`.
pub fn merge_config(parsed: ConfigOptional) -> (r: Config)
    ensures
        r.keepOpen == match parsed.keepOpen {
            Some(b) => b,
            None => false,
        },
        commands_view(r.PlainTextContextActions@) == match parsed.PlainTextContextActions {
            Some(v) => commands_view(v@),
            None => default_plain_text_actions(),
        },
        commands_view(r.AddressContextActions@) == match parsed.AddressContextActions {
            Some(v) => commands_view(v@),
            None => default_address_actions(),
        },
        commands_view(r.ImageContextActions@) == match parsed.ImageContextActions {
            Some(v) => commands_view(v@),
            None => default_image_actions(),
        },
{
    let defaults = default_config();
    Config {
        keepOpen: match parsed.keepOpen {
            Some(b) => b,
            None => defaults.keepOpen,
        },
        PlainTextContextActions: match parsed.PlainTextContextActions {
            Some(v) => v,
            None => defaults.PlainTextContextActions,
        },
        AddressContextActions: match parsed.AddressContextActions {
            Some(v) => v,
            None => defaults.AddressContextActions,
        },
        ImageContextActions: match parsed.ImageContextActions {
            Some(v) => v,
            None => defaults.ImageContextActions,
        },
    }
}

} // verus!
