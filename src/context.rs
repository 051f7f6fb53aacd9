//! What the front end makes of an entry: text, address or image, and the
//! context commands that the settings offer for it.

use vstd::prelude::*;

use crate::error::OxiPasteError;
use crate::text::{starts_with_chars, str_starts_with};
use crate::ui_config::{commands_view, strings_view, Config};

verus! {

/// Whether a text reads as an address: a web link, or an absolute or
/// relative path.
pub open spec fn is_address(s: Seq<char>) -> bool {
    starts_with_chars(s, "https://"@) || starts_with_chars(s, "/"@) || starts_with_chars(s, "./"@)
}

/// A text that reads as an address.
#[derive(Debug, Clone)]
pub struct Address {
    inner: String,
}

impl View for Address {
    type V = Seq<char>;

    closed spec fn view(&self) -> Seq<char> {
        self.inner@
    }
}

impl Address {
    /// The address that `value` is, or `value` itself back when it is none.
    pub fn try_build(value: String) -> (r: Result<Self, String>)
        ensures
            r is Ok <==> is_address(value@),
            r is Ok ==> r->Ok_0@ == value@,
            r is Err ==> r->Err_0@ == value@,
    {
        if str_starts_with(value.as_str(), "https://") || str_starts_with(value.as_str(), "/")
            || str_starts_with(value.as_str(), "./") {
            Ok(Address { inner: value })
        } else {
            Err(value)
        }
    }

    /// The text of the address.
    pub fn as_str(&self) -> (r: &str)
        ensures
            r@ == self@,
    {
        self.inner.as_str()
    }

    /// The address as it is shown.
    pub fn to_string(&self) -> (r: String)
        ensures
            r@ == self@,
    {
        self.inner.clone()
    }
}

/// An image entry and its bytes.
#[derive(Debug, Clone)]
pub enum ImageContext {
    Regular(Vec<u8>),
}

/// A text entry: an address, or any other text.
#[derive(Debug, Clone)]
pub enum TextContext {
    Address(Address),
    Text(String),
}

/// The kinds of entry that the list can be narrowed to.
#[derive(Clone, Copy, PartialEq, Eq, Structural, Debug)]
pub enum ContentTypeId {
    PlainText,
    AddressText,
    Image,
    All,
}

impl ContentTypeId {
    /// The name under which the kind is offered.
    pub fn to_string(&self) -> (r: String)
        ensures
            r@ == match self {
                ContentTypeId::PlainText => "Text"@,
                ContentTypeId::AddressText => "Addresses"@,
                ContentTypeId::Image => "Images"@,
                ContentTypeId::All => "All"@,
            },
    {
        match self {
            ContentTypeId::PlainText => "Text".to_owned(),
            ContentTypeId::AddressText => "Addresses".to_owned(),
            ContentTypeId::Image => "Images".to_owned(),
            ContentTypeId::All => "All".to_owned(),
        }
    }
}

/// An entry as the front end shows it.
#[derive(Debug, Clone)]
pub enum ContentType {
    Text(TextContext),
    Image(ImageContext),
}

/// The model of an entry as the front end shows it.
pub enum ContentView {
    Address(Seq<char>),
    Text(Seq<char>),
    Image(Seq<u8>),
}

impl View for ContentType {
    type V = ContentView;

    open spec fn view(&self) -> ContentView {
        match self {
            ContentType::Text(TextContext::Address(a)) => ContentView::Address(a@),
            ContentType::Text(TextContext::Text(t)) => ContentView::Text(t@),
            ContentType::Image(ImageContext::Regular(b)) => ContentView::Image(b@),
        }
    }
}

/// The context commands of an entry, and whether the entry must be put on the
/// clipboard before they run.
pub struct GetContextActionsResult(pub Vec<Result<ContextCommand, OxiPasteError>>, pub bool);

/// An entry of the list, and whether its context commands are shown.
#[derive(Debug, Clone)]
pub struct ContextMenu {
    pub toggled: bool,
    pub content_type: ContentType,
}

#[derive(Debug, Clone)]
pub enum ContextMenuMessage {
    Expand,
}

/// A context command: its label, the program and the program's arguments, and
/// whether the entry must be on the clipboard first.
#[derive(Debug, Clone)]
pub struct ContextCommand {
    pub label: String,
    pub command: String,
    pub args: Vec<String>,
    pub requires_copy: bool,
}

/// The model of a context command: label, program, arguments, and whether
/// the entry must be on the clipboard first.
pub type CommandView = (Seq<char>, Seq<char>, Seq<Seq<char>>, bool);

impl View for ContextCommand {
    type V = CommandView;

    open spec fn view(&self) -> CommandView {
        (self.label@, self.command@, strings_view(self.args@), self.requires_copy)
    }
}

/// The argument that stands for the entry's text.
pub open spec fn placeholder() -> Seq<char> {
    seq!['{', '}']
}

pub open spec fn too_few_parts_message() -> Seq<char> {
    "Invalid Command: less than 2 arguments provided"@
}

/// The arguments of a command after the entry's text `value` went in: each
/// placeholder becomes the text, or, without a placeholder, the text goes
/// last. A command that puts the entry on the clipboard takes no text.
pub open spec fn filled_args(rest: Seq<Seq<char>>, value: Seq<char>, requires_copy: bool) -> Seq<Seq<char>> {
    if requires_copy {
        rest
    } else if rest.contains(placeholder()) {
        rest.map_values(|a: Seq<char>| if a == placeholder() { value } else { a })
    } else {
        rest.push(value)
    }
}

/// The command that the parts `parts` make for the text `value`: the first
/// part is the label, the second the program, the rest its arguments. Fewer
/// than two parts make an error.
pub open spec fn command_from(parts: Seq<Seq<char>>, value: Seq<char>, requires_copy: bool) -> Result<CommandView, Seq<char>> {
    if parts.len() < 2 {
        Err(too_few_parts_message())
    } else {
        Ok((parts[0], parts[1], filled_args(parts.skip(2), value, requires_copy), requires_copy))
    }
}

/// The model of a command or its error.
pub open spec fn result_view(r: Result<ContextCommand, OxiPasteError>) -> Result<CommandView, Seq<char>> {
    match r {
        Ok(c) => Ok(c@),
        Err(e) => Err(e@),
    }
}

/// The commands that each list of parts of `commands` makes, in order.
pub open spec fn commands_from(commands: Seq<Seq<Seq<char>>>, value: Seq<char>, requires_copy: bool) -> Seq<Result<CommandView, Seq<char>>> {
    Seq::new(commands.len(), |i: int| command_from(commands[i], value, requires_copy))
}

/// The models of a list of commands or errors.
pub open spec fn results_view(v: Seq<Result<ContextCommand, OxiPasteError>>) -> Seq<Result<CommandView, Seq<char>>> {
    Seq::new(v.len(), |i: int| result_view(v[i]))
}

fn copy_strings(v: &Vec<String>) -> (r: Vec<String>)
    ensures
        strings_view(r@) == strings_view(v@),
{
    let mut out: Vec<String> = Vec::new();
    let mut i: usize = 0;
    while i < v.len()
        invariant
            i <= v@.len(),
            out@.len() == i,
            strings_view(out@) == strings_view(v@).take(i as int),
        decreases v@.len() - i,
    {
        let s = v[i].clone();
        assert(s@ == v@[i as int]@);
        let ghost before = out@;
        out.push(s);
        i = i + 1;
        proof {
            assert forall|j: int| 0 <= j < i implies #[trigger] strings_view(out@)[j] == strings_view(v@).take(i as int)[j] by {
                if j < i - 1 {
                    assert(out@[j] == before[j]);
                    assert(strings_view(before)[j] == strings_view(v@).take(i - 1)[j]);
                }
            }
            assert(strings_view(out@) =~= strings_view(v@).take(i as int));
        }
    }
    proof {
        assert(strings_view(v@).take(i as int) =~= strings_view(v@));
    }
    out
}

impl ContextCommand {
    /// The command that `args` make for the entry text `value`; see
    /// `command_from`.
    pub fn from_vec_and_value(args: Vec<String>, value: &str, requires_copy: bool) -> (r: Result<
        Self,
        OxiPasteError,
    >)
        ensures
            result_view(r) == command_from(strings_view(args@), value@, requires_copy),
    {
        let mut args = args;
        if args.len() < 2 {
            let e = OxiPasteError::new("Invalid Command: less than 2 arguments provided");
            return Err(e);
        }
        let ghost parts = strings_view(args@);
        let label = args.remove(0);
        let command = args.remove(0);
        proof {
            assert(strings_view(args@) =~= parts.skip(2));
        }
        if !requires_copy {
            let ghost rest = strings_view(args@);
            let mark = String::from_str("{}");
            proof {
                reveal_strlit("{}");
                assert(mark@ =~= placeholder());
            }
            let mut found = false;
            let mut filled: Vec<String> = Vec::new();
            let mut i: usize = 0;
            while i < args.len()
                invariant
                    i <= args@.len(),
                    filled@.len() == i,
                    rest == strings_view(args@),
                    mark@ == placeholder(),
                    found == rest.take(i as int).contains(placeholder()),
                    strings_view(filled@) == rest.take(i as int).map_values(
                        |a: Seq<char>| if a == placeholder() { value@ } else { a },
                    ),
                decreases args@.len() - i,
            {
                let ghost old_found = found;
                let ghost old_filled = filled@;
                if args[i] == mark {
                    filled.push(value.to_owned());
                    found = true;
                } else {
                    filled.push(args[i].clone());
                }
                proof {
                    let t = rest.take(i as int + 1);
                    assert(t =~= rest.take(i as int).push(rest[i as int]));
                    if !old_found && rest[i as int] != placeholder() {
                        assert forall|k: int| 0 <= k < t.len() implies t[k] != placeholder() by {
                            if k < i {
                                assert(rest.take(i as int)[k] == t[k]);
                            }
                        }
                    }
                    if old_found {
                        let k = choose|k: int| 0 <= k < i && rest.take(i as int)[k] == placeholder();
                        assert(t[k] == placeholder());
                    }
                    assert(rest[i as int] == placeholder() ==> t[i as int] == placeholder());
                    assert forall|k: int| 0 <= k < i implies #[trigger] strings_view(filled@)[k] == strings_view(old_filled)[k] by {
                        assert(filled@[k] == old_filled[k]);
                    }
                    assert(strings_view(filled@) =~= t.map_values(
                        |a: Seq<char>| if a == placeholder() { value@ } else { a },
                    ));
                }
                i = i + 1;
            }
            proof {
                assert(rest.take(i as int) =~= rest);
            }
            if !found {
                filled.push(value.to_owned());
                proof {
                    assert(rest.map_values(|a: Seq<char>| if a == placeholder() { value@ } else { a }) =~= rest)
                        by {
                        assert forall|k: int| 0 <= k < rest.len() implies rest[k] != placeholder() by {
                            if rest[k] == placeholder() {
                                assert(rest.contains(placeholder()));
                            }
                        }
                    }
                    assert(strings_view(filled@) =~= rest.push(value@));
                }
            }
            args = filled;
        }
        Ok(ContextCommand { label, command, args, requires_copy })
    }
}

/// Each command of `commands` made for the text `value`, in order.
fn commands_for(commands: &Vec<Vec<String>>, value: &str, requires_copy: bool) -> (r: Vec<
    Result<ContextCommand, OxiPasteError>,
>)
    ensures
        results_view(r@) == commands_from(commands_view(commands@), value@, requires_copy),
{
    let mut out: Vec<Result<ContextCommand, OxiPasteError>> = Vec::new();
    let mut i: usize = 0;
    while i < commands.len()
        invariant
            i <= commands@.len(),
            out@.len() == i,
            forall|j: int| 0 <= j < i ==> #[trigger] result_view(out@[j]) == command_from(
                strings_view(commands@[j]@),
                value@,
                requires_copy,
            ),
        decreases commands@.len() - i,
    {
        let parts = copy_strings(&commands[i]);
        let made = ContextCommand::from_vec_and_value(parts, value, requires_copy);
        out.push(made);
        i = i + 1;
    }
    proof {
        assert(results_view(out@) =~= commands_from(commands_view(commands@), value@, requires_copy));
    }
    out
}

impl ImageContext {
    /// The image commands of the settings; they put the image on the
    /// clipboard and take no text.
    fn apply_value(commands: &Vec<Vec<String>>) -> (r: Vec<Result<ContextCommand, OxiPasteError>>)
        ensures
            results_view(r@) == commands_from(commands_view(commands@), Seq::empty(), true),
    {
        let r = commands_for(commands, "", true);
        proof {
            assert(commands_from(commands_view(commands@), ""@, true) =~= commands_from(
                commands_view(commands@),
                Seq::empty(),
                true,
            ));
        }
        r
    }

    /// The context commands of an image: the image commands of the settings.
    pub fn get_context_actions(&self, config: &Config) -> (r: Vec<Result<ContextCommand, OxiPasteError>>)
        ensures
            results_view(r@) == commands_from(commands_view(config.ImageContextActions@), Seq::empty(), true),
    {
        ImageContext::apply_value(&config.ImageContextActions)
    }
}

impl TextContext {
    /// The commands of `commands` made for the text `value`.
    fn apply_value(commands: &Vec<Vec<String>>, value: &str) -> (r: Vec<Result<ContextCommand, OxiPasteError>>)
        ensures
            results_view(r@) == commands_from(commands_view(commands@), value@, false),
    {
        commands_for(commands, value, false)
    }

    /// The text of the entry.
    pub open spec fn text(&self) -> Seq<char> {
        match self {
            TextContext::Address(a) => a@,
            TextContext::Text(t) => t@,
        }
    }

    /// The context commands of a text: the address commands of the settings
    /// for an address, the plain text commands for other text, each made for
    /// the entry's text.
    pub fn get_context_actions(&self, config: &Config) -> (r: Vec<Result<ContextCommand, OxiPasteError>>)
        ensures
            results_view(r@) == commands_from(
                commands_view(
                    match self {
                        TextContext::Address(_) => config.AddressContextActions@,
                        TextContext::Text(_) => config.PlainTextContextActions@,
                    },
                ),
                self.text(),
                false,
            ),
    {
        match self {
            TextContext::Address(address) => TextContext::apply_value(
                &config.AddressContextActions,
                address.inner.as_str(),
            ),
            TextContext::Text(text) => TextContext::apply_value(&config.PlainTextContextActions, text.as_str()),
        }
    }
}

impl ContentType {
    /// The context commands of the entry, and whether the entry must be put
    /// on the clipboard before they run, which is so for images.
    pub fn get_context_actions(&self, config: &Config) -> (r: GetContextActionsResult)
        ensures
            r.1 == (self is Image),
            results_view(r.0@) == match self {
                ContentType::Text(t) => commands_from(
                    commands_view(
                        match t {
                            TextContext::Address(_) => config.AddressContextActions@,
                            TextContext::Text(_) => config.PlainTextContextActions@,
                        },
                    ),
                    t.text(),
                    false,
                ),
                ContentType::Image(_) => commands_from(commands_view(config.ImageContextActions@), Seq::empty(), true),
            },
    {
        match self {
            ContentType::Text(context) => GetContextActionsResult(context.get_context_actions(config), false),
            ContentType::Image(context) => GetContextActionsResult(context.get_context_actions(config), true),
        }
    }
}

} // verus!
