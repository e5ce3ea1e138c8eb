//! The command line: its commands, the dialogue that adds a provider, and what
//! it keeps of a chat.

use crate::config::{
    auth_header_spec, provider_fault, AuthStyle, DefaultModel, DefaultModelView, ModelEntry,
    ModelEntryView, ModelsSettings, ModelsSettingsView, ProviderConfig, ProviderConfigView,
    SettingsFile, SettingsFileView,
};
use crate::openai::{ModelInfo, ModelInfoView};
use crate::protocol::{ApiFormat, ModelRef, ModelRefView, ReasoningEffort};
use crate::text::{
    ascii_lower_char, concat, concat3, contains_text, debug_form, debug_text, decimal,
    decimal_text, find, from_range, is_blank, is_space, join, join_from_the_front, join_text,
    opt_view, same, split, split_text, to_chars, trim, trim_start, trim_text, views, Text,
};
use crate::tui::{next_of, previous_of, Key, KeyCode};
use vstd::prelude::*;

verus! {

/// What a command line asks for.
#[derive(Clone, Copy, Debug, Eq, PartialEq, Structural)]
pub enum CliCommand {
    Chat,
    AddProvider,
    Help,
    Unknown,
}

/// The meaning of the arguments behind the program's name.
pub open spec fn command_of(arguments: Seq<Text>) -> CliCommand {
    if arguments.len() == 0 {
        CliCommand::Chat
    } else if arguments.len() == 1 && arguments[0] == "chat"@ {
        CliCommand::Chat
    } else if arguments.len() == 2 && arguments[0] == "provider"@ && arguments[1] == "add"@ {
        CliCommand::AddProvider
    } else if arguments.len() == 1 && (arguments[0] == "--help"@ || arguments[0] == "-h"@
        || arguments[0] == "help"@) {
        CliCommand::Help
    } else {
        CliCommand::Unknown
    }
}

/// Reads the arguments behind the program's name.
pub fn parse_arguments(arguments: &Vec<String>) -> (r: CliCommand)
    ensures
        r == command_of(views(arguments@)),
{
    let count: usize = arguments.len();
    if count > 0 {
        assert(views(arguments@)[0] == arguments@[0]@);
    }
    if count > 1 {
        assert(views(arguments@)[1] == arguments@[1]@);
    }
    if count == 0 {
        CliCommand::Chat
    } else if count == 1 && same(&arguments[0], "chat") {
        CliCommand::Chat
    } else if count == 2 && same(&arguments[0], "provider") && same(&arguments[1], "add") {
        CliCommand::AddProvider
    } else if count == 1 && (same(&arguments[0], "--help") || same(&arguments[0], "-h") || same(
        &arguments[0],
        "help",
    )) {
        CliCommand::Help
    } else {
        CliCommand::Unknown
    }
}

/// Whether a chat first needs a provider: without a configured server and
/// without any provider there is nothing to chat with.
pub fn needs_setup(server_configured: bool, providers: usize) -> (r: bool)
    ensures
        r == (!server_configured && providers == 0),
{
    !server_configured && providers == 0
}

/// The answer to a question that has to be answered: trimmed, and `None` if
/// nothing was said.
pub fn required_answer(line: &str) -> (r: Option<String>)
    ensures
        opt_view(r) == if trim(line@).len() == 0 {
            None::<Text>
        } else {
            Some(trim(line@))
        },
{
    if is_blank(line) {
        None
    } else {
        Some(trim_text(line))
    }
}

/// The lowercase of a character outside of ASCII: one or more characters.
pub uninterp spec fn lowercase_of(c: char) -> Text;

/// The lowercase of a character: of an ASCII character its ASCII lowercase.
pub open spec fn lower_form(c: char) -> Text {
    if c <= '\u{7f}' {
        seq![ascii_lower_char(c)]
    } else {
        lowercase_of(c)
    }
}

/// Whether a text holds no ASCII capital.
pub open spec fn no_capitals(s: Text) -> bool {
    forall|i: int| 0 <= i < s.len() ==> !('A' <= #[trigger] s[i] && s[i] <= 'Z')
}

/// The lowercase of a character, as `char::to_lowercase` gives it. The contract
/// says that the result depends on the character alone, that an ASCII character
/// becomes its ASCII lowercase, and that no lowercase holds an ASCII capital.
#[verifier::external_body]
pub(crate) fn lowered_char(c: char) -> (r: String)
    ensures
        r@ == if c <= '\u{7f}' {
            seq![ascii_lower_char(c)]
        } else {
            lowercase_of(c)
        },
        no_capitals(r@),
{
    c.to_lowercase().collect()
}

/// A text with every character in lowercase.
pub open spec fn lowered(s: Text) -> Text
    decreases s.len(),
{
    if s.len() == 0 {
        seq![]
    } else {
        lowered(s.drop_last()) + lower_form(s.last())
    }
}

/// Whether a character is an ASCII letter or digit.
pub open spec fn is_plain(c: char) -> bool {
    ('a' <= c && c <= 'z') || ('A' <= c && c <= 'Z') || ('0' <= c && c <= '9')
}

/// How many ASCII letters and digits a text begins with.
pub open spec fn plain_length(s: Text) -> int
    decreases s.len(),
{
    if s.len() == 0 || !is_plain(s[0]) {
        0
    } else {
        1 + plain_length(s.drop_first())
    }
}

/// The letters and digits that a text begins with lie inside of it.
pub proof fn plain_length_bounds(s: Text)
    ensures
        0 <= plain_length(s) <= s.len(),
        s.len() > 0 && is_plain(s[0]) ==> plain_length(s) > 0,
        forall|i: int| 0 <= i < plain_length(s) ==> is_plain(#[trigger] s[i]),
    decreases s.len(),
{
    if s.len() > 0 && is_plain(s[0]) {
        plain_length_bounds(s.drop_first());
        assert forall|i: int| 0 <= i < plain_length(s) implies is_plain(#[trigger] s[i]) by {
            if i > 0 {
                assert(s[i] == s.drop_first()[i - 1]);
            }
        }
    }
}

/// The groups of ASCII letters and digits in a text.
pub open spec fn plain_groups(s: Text) -> Seq<Text>
    decreases s.len(),
{
    if s.len() == 0 {
        seq![]
    } else if !is_plain(s[0]) {
        plain_groups(s.drop_first())
    } else {
        let size = plain_length(s);
        proof {
            plain_length_bounds(s);
        }
        seq![s.take(size)] + plain_groups(s.skip(size))
    }
}

/// The groups of ASCII letters and digits in a text, joined by hyphens.
pub open spec fn slug(s: Text) -> Text {
    join(plain_groups(s), "-"@)
}

fn is_plain_char(c: char) -> (r: bool)
    ensures
        r == is_plain(c),
{
    ('a' <= c && c <= 'z') || ('A' <= c && c <= 'Z') || ('0' <= c && c <= '9')
}

/// The groups of ASCII letters and digits in a text, joined by hyphens.
pub fn slug_text(s: &str) -> (r: String)
    ensures
        r@ == slug(s@),
{
    let chars = to_chars(s);
    let size: usize = chars.len();
    let mut groups: Vec<String> = Vec::new();
    let mut from: usize = 0;
    assert(chars@.skip(0) =~= chars@);
    assert(views(groups@) + plain_groups(chars@) =~= plain_groups(s@));
    while from < size
        invariant
            size == chars@.len(),
            chars@ == s@,
            from <= size,
            views(groups@) + plain_groups(chars@.skip(from as int)) == plain_groups(s@),
        decreases size - from,
    {
        let ghost rest = chars@.skip(from as int);
        assert(rest[0] == chars@[from as int]);
        if !is_plain_char(chars[from]) {
            assert(rest.drop_first() =~= chars@.skip(from as int + 1));
            from += 1;
        } else {
            let mut end: usize = from;
            while end < size && is_plain_char(chars[end])
                invariant
                    size == chars@.len(),
                    from <= end <= size,
                    end - from + plain_length(chars@.skip(end as int)) == plain_length(
                        chars@.skip(from as int),
                    ),
                decreases size - end,
            {
                assert(chars@.skip(end as int).drop_first() =~= chars@.skip(end as int + 1));
                end += 1;
            }
            proof {
                plain_length_bounds(rest);
                if end < size {
                    assert(chars@.skip(end as int)[0] == chars@[end as int]);
                }
            }
            let group = from_range(&chars, from, end);
            let ghost added = group@;
            let ghost before = views(groups@);
            assert(added =~= rest.take(end - from));
            assert(rest.skip(end - from) =~= chars@.skip(end as int));
            groups.push(group);
            assert(views(groups@) =~= before.push(added));
            assert(views(groups@) + plain_groups(chars@.skip(end as int)) =~= before
                + plain_groups(rest));
            from = end;
        }
    }
    assert(chars@.skip(size as int) =~= seq![]);
    assert(views(groups@) =~= plain_groups(s@));
    join_text(&groups, "-")
}

/// The id of a provider: its name in lowercase, with everything but ASCII
/// letters and digits as single hyphens between them. The id of an id is the id
/// itself.
pub fn provider_id(name: &str) -> (r: String)
    ensures
        r@ == slug(lowered(name@)),
        no_capitals(r@),
        slug(lowered(r@)) == r@,
{
    let chars = to_chars(name);
    let mut low = String::new();
    let mut i: usize = 0;
    assert(chars@.take(0) =~= seq![]);
    assert(low@ =~= seq![]);
    while i < chars.len()
        invariant
            i <= chars@.len(),
            chars@ == name@,
            low@ == lowered(chars@.take(i as int)),
            no_capitals(low@),
        decreases chars@.len() - i,
    {
        assert(chars@.take(i as int + 1).drop_last() =~= chars@.take(i as int));
        low.push_str(&lowered_char(chars[i]));
        i += 1;
    }
    assert(chars@.take(chars@.len() as int) =~= chars@);
    proof {
        ids_are_settled(low@);
    }
    slug_text(&low)
}

/// A base address with a scheme. `http` is assumed where none is given.
pub open spec fn with_scheme(base_url: Text) -> Text {
    if find(base_url, "://"@) is Some {
        base_url
    } else {
        "http://"@ + base_url
    }
}

/// A base address with a scheme, and whether it had to be assumed.
pub fn schemed_url(base_url: String) -> (r: (String, bool))
    ensures
        r.0@ == with_scheme(base_url@),
        r.1 == (find(base_url@, "://"@) is None),
{
    if contains_text(&base_url, "://") {
        (base_url, false)
    } else {
        (concat("http://", &base_url), true)
    }
}

/// The parts of a text that say something, trimmed, as plain models.
pub open spec fn named_models(parts: Seq<Text>) -> Seq<ModelEntryView>
    decreases parts.len(),
{
    if parts.len() == 0 {
        seq![]
    } else {
        let before = named_models(parts.drop_last());
        if trim(parts.last()).len() == 0 {
            before
        } else {
            before.push(ModelEntryView::Plain(trim(parts.last())))
        }
    }
}

/// The models that were typed in, separated by commas.
pub fn manual_models(value: &str) -> (r: Result<Vec<ModelEntry>, String>)
    ensures
        match r {
            Ok(models) => views(models@) == named_models(split(value@, ',')) && models@.len() > 0,
            Err(error) => named_models(split(value@, ',')).len() == 0 && error@
                == "at least one model ID is required"@,
        },
{
    let parts = split_text(value, ',');
    let ghost all = views(parts@);
    let mut models: Vec<ModelEntry> = Vec::new();
    let mut i: usize = 0;
    assert(all.take(0) =~= seq![]);
    assert(views(models@) =~= seq![]);
    while i < parts.len()
        invariant
            i <= parts@.len(),
            all == views(parts@),
            all == split(value@, ','),
            views(models@) == named_models(all.take(i as int)),
        decreases parts@.len() - i,
    {
        assert(all.take(i as int + 1).drop_last() =~= all.take(i as int));
        assert(all.take(i as int + 1).last() == parts@[i as int]@);
        let name = trim_text(&parts[i]);
        if !name.as_str().is_empty() {
            let ghost before = views(models@);
            let ghost added = ModelEntryView::Plain(name@);
            models.push(ModelEntry::Plain(name));
            assert(views(models@) =~= before.push(added));
        }
        i += 1;
    }
    assert(all.take(all.len() as int) =~= all);
    assert(views(models@).len() == models@.len());
    if models.len() == 0 {
        Err("at least one model ID is required".to_owned())
    } else {
        Ok(models)
    }
}

/// How many models the picker shows at once.
pub const MODEL_VIEWPORT_ROWS: usize = 10;

/// The content of a [`ModelPicker`].
#[verifier::ext_equal]
pub struct ModelPickerView {
    pub models: Seq<ModelInfoView>,
    pub checked: Seq<bool>,
    pub cursor: usize,
    pub notice: Option<Text>,
}

/// The list in which the models of a new provider are checked.
#[derive(Debug)]
pub struct ModelPicker {
    pub models: Vec<ModelInfo>,
    pub checked: Vec<bool>,
    pub cursor: usize,
    pub notice: Option<String>,
}

impl View for ModelPicker {
    type V = ModelPickerView;

    open spec fn view(&self) -> ModelPickerView {
        ModelPickerView {
            models: views(self.models@),
            checked: self.checked@,
            cursor: self.cursor,
            notice: opt_view(self.notice),
        }
    }
}

/// The content of a [`PickerOutcome`].
#[verifier::ext_equal]
pub enum PickerOutcomeView {
    Stay,
    Cancel,
    Chosen(Seq<ModelEntryView>),
}

/// What a key leads to.
#[derive(Debug, Eq, PartialEq)]
pub enum PickerOutcome {
    Stay,
    Cancel,
    Chosen(Vec<ModelEntry>),
}

impl View for PickerOutcome {
    type V = PickerOutcomeView;

    open spec fn view(&self) -> PickerOutcomeView {
        match self {
            PickerOutcome::Stay => PickerOutcomeView::Stay,
            PickerOutcome::Cancel => PickerOutcomeView::Cancel,
            PickerOutcome::Chosen(item) => PickerOutcomeView::Chosen(views(item@)),
        }
    }
}

impl Clone for PickerOutcome {
    fn clone(&self) -> (r: Self)
        ensures
            r@ == self@,
    {
        let r = match self {
            PickerOutcome::Stay => PickerOutcome::Stay,
            PickerOutcome::Cancel => PickerOutcome::Cancel,
            PickerOutcome::Chosen(item) => PickerOutcome::Chosen(item.clone()),
        };
        assert(r@ =~~= self@);
        r
    }
}

/// The entry of a model in the provider registry.
pub open spec fn registry_entry(model: ModelInfoView) -> ModelEntryView {
    match model.reasoning_efforts {
        Some(efforts) => ModelEntryView::Detailed {
            id: model.id,
            reasoning_efforts: Some(efforts),
        },
        None => ModelEntryView::Plain(model.id),
    }
}

/// The checked models, in their order.
pub open spec fn chosen_models(models: Seq<ModelInfoView>, checked: Seq<bool>) -> Seq<ModelEntryView>
    decreases models.len(),
{
    if models.len() == 0 {
        seq![]
    } else {
        let last = models.len() - 1;
        let before = chosen_models(models.drop_last(), checked);
        if checked[last] {
            before.push(registry_entry(models[last]))
        } else {
            before
        }
    }
}

/// How many of the first entries are checked.
pub open spec fn count_checked(checked: Seq<bool>) -> nat
    decreases checked.len(),
{
    if checked.len() == 0 {
        0
    } else {
        count_checked(checked.drop_last()) + if checked.last() {
            1nat
        } else {
            0nat
        }
    }
}

impl ModelPickerView {
    /// What every reachable state keeps: there is a model, each can be checked,
    /// and the cursor stands on one.
    pub open spec fn well_formed(self) -> bool {
        &&& self.checked.len() == self.models.len()
        &&& self.cursor < self.models.len()
    }

    /// The state and the outcome after a key.
    pub open spec fn pressed(self, key: Key) -> (ModelPickerView, PickerOutcomeView) {
        match key.code {
            KeyCode::Char(c) => if c == 'c' && key.control {
                (self, PickerOutcomeView::Cancel)
            } else if c == ' ' {
                (
                    ModelPickerView {
                        checked: self.checked.update(
                            self.cursor as int,
                            !self.checked[self.cursor as int],
                        ),
                        notice: None,
                        ..self
                    },
                    PickerOutcomeView::Stay,
                )
            } else {
                (self, PickerOutcomeView::Stay)
            },
            KeyCode::Esc => (self, PickerOutcomeView::Cancel),
            KeyCode::Down => (
                ModelPickerView {
                    cursor: next_of(self.cursor, self.models.len()),
                    notice: None,
                    ..self
                },
                PickerOutcomeView::Stay,
            ),
            KeyCode::Up => (
                ModelPickerView {
                    cursor: previous_of(self.cursor, self.models.len()),
                    notice: None,
                    ..self
                },
                PickerOutcomeView::Stay,
            ),
            KeyCode::Enter => if count_checked(self.checked) == 0 {
                (
                    ModelPickerView {
                        notice: Some("Check at least one model before continuing."@),
                        ..self
                    },
                    PickerOutcomeView::Stay,
                )
            } else {
                (
                    self,
                    PickerOutcomeView::Chosen(chosen_models(self.models, self.checked)),
                )
            },
            _ => (self, PickerOutcomeView::Stay),
        }
    }

    /// The first model that is shown.
    pub open spec fn viewport_start(self) -> int {
        let above = if self.cursor >= MODEL_VIEWPORT_ROWS {
            self.cursor - (MODEL_VIEWPORT_ROWS - 1)
        } else {
            0
        };
        let most = if self.models.len() >= MODEL_VIEWPORT_ROWS {
            self.models.len() - MODEL_VIEWPORT_ROWS
        } else {
            0
        };
        if above < most {
            above
        } else {
            most
        }
    }

    /// The end of the models that are shown.
    pub open spec fn viewport_end(self) -> int {
        if self.viewport_start() + MODEL_VIEWPORT_ROWS < self.models.len() {
            self.viewport_start() + MODEL_VIEWPORT_ROWS
        } else {
            self.models.len() as int
        }
    }

    /// The row of a model.
    pub open spec fn row(self, index: int) -> Text {
        (if index == self.cursor {
            ">"@
        } else {
            " "@
        }) + " "@ + (if self.checked[index] {
            "[x]"@
        } else {
            "[ ]"@
        }) + " "@ + self.models[index].id
    }

    /// The lines of the picker: how many are checked, the models around the
    /// cursor, and a notice or the keys.
    pub open spec fn shown(self) -> Seq<Text> {
        seq![
            "Enable models · "@ + decimal(count_checked(self.checked)) + " of "@ + decimal(
                self.models.len(),
            ) + " checked"@,
        ] + Seq::new(
            (self.viewport_end() - self.viewport_start()) as nat,
            |i: int| self.row(self.viewport_start() + i),
        ) + seq![
            seq![],
            match self.notice {
                Some(notice) => notice,
                None => "↑/↓ move · space check · enter continue · esc cancel"@,
            },
        ]
    }
}

impl ModelPicker {
    /// The picker for the models of a listing; one that lists nothing cannot be
    /// picked from.
    pub fn new(models: Vec<ModelInfo>) -> (r: Result<ModelPicker, String>)
        ensures
            match r {
                Ok(picker) => models@.len() > 0 && picker@.well_formed() && picker@ == (
                ModelPickerView {
                    models: views(models@),
                    checked: Seq::new(models@.len(), |i: int| false),
                    cursor: 0,
                    notice: None,
                }),
                Err(error) => models@.len() == 0 && error@ == "at least one model ID is required"@,
            },
    {
        let count: usize = models.len();
        if count == 0 {
            return Err("at least one model ID is required".to_owned());
        }
        let mut checked: Vec<bool> = Vec::new();
        let mut i: usize = 0;
        while i < count
            invariant
                i <= count,
                checked@ =~= Seq::new(i as nat, |i: int| false),
            decreases count - i,
        {
            checked.push(false);
            i += 1;
        }
        Ok(ModelPicker { models, checked, cursor: 0, notice: None })
    }

    /// How many models are checked.
    pub fn checked_count(&self) -> (r: usize)
        ensures
            r == count_checked(self@.checked),
    {
        let mut count: usize = 0;
        let mut i: usize = 0;
        assert(self.checked@.take(0) =~= seq![]);
        while i < self.checked.len()
            invariant
                i <= self.checked@.len(),
                count <= i,
                count == count_checked(self.checked@.take(i as int)),
            decreases self.checked@.len() - i,
        {
            assert(self.checked@.take(i as int + 1).drop_last() =~= self.checked@.take(i as int));
            if self.checked[i] {
                count += 1;
            }
            i += 1;
        }
        assert(self.checked@.take(self.checked@.len() as int) =~= self.checked@);
        count
    }

    fn chosen(&self) -> (r: Vec<ModelEntry>)
        requires
            self@.well_formed(),
        ensures
            views(r@) == chosen_models(self@.models, self@.checked),
    {
        let ghost all = self@.models;
        let mut entries: Vec<ModelEntry> = Vec::new();
        let mut i: usize = 0;
        assert(all.take(0) =~= seq![]);
        assert(views(entries@) =~= seq![]);
        while i < self.models.len()
            invariant
                i <= self.models@.len(),
                all == self@.models,
                self@.well_formed(),
                views(entries@) == chosen_models(all.take(i as int), self@.checked),
            decreases self.models@.len() - i,
        {
            assert(all.take(i as int + 1).drop_last() =~= all.take(i as int));
            assert(all.take(i as int + 1)[i as int] == self.models@[i as int]@);
            if self.checked[i] {
                let model = &self.models[i];
                let entry = match &model.reasoning_efforts {
                    Some(efforts) => ModelEntry::Detailed {
                        id: model.id.clone(),
                        reasoning_efforts: Some(efforts.clone()),
                    },
                    None => ModelEntry::Plain(model.id.clone()),
                };
                let ghost added = entry@;
                let ghost before = views(entries@);
                assert(added == registry_entry(model@));
                entries.push(entry);
                assert(views(entries@) =~= before.push(added));
            }
            i += 1;
        }
        assert(all.take(all.len() as int) =~= all);
        entries
    }

    /// Takes a key.
    pub fn press(&mut self, key: Key) -> (r: PickerOutcome)
        requires
            old(self)@.well_formed(),
        ensures
            old(self)@.pressed(key) == (final(self)@, r@),
            final(self)@.well_formed(),
    {
        let size: usize = self.models.len();
        match key.code {
            KeyCode::Char(c) => {
                if c == 'c' && key.control {
                    return PickerOutcome::Cancel;
                }
                if c == ' ' {
                    self.notice = None;
                    let now = self.checked[self.cursor];
                    self.checked.set(self.cursor, !now);
                }
            },
            KeyCode::Esc => {
                return PickerOutcome::Cancel;
            },
            KeyCode::Down => {
                self.notice = None;
                self.cursor = (self.cursor + 1) % size;
            },
            KeyCode::Up => {
                self.notice = None;
                if self.cursor == 0 {
                    self.cursor = size - 1;
                } else {
                    self.cursor = self.cursor - 1;
                }
            },
            KeyCode::Enter => {
                if self.checked_count() == 0 {
                    self.notice = Some("Check at least one model before continuing.".to_owned());
                } else {
                    return PickerOutcome::Chosen(self.chosen());
                }
            },
            _ => {},
        }
        PickerOutcome::Stay
    }

    fn row(&self, index: usize) -> (r: String)
        requires
            self@.well_formed(),
            index < self@.models.len(),
        ensures
            r@ == self@.row(index as int),
    {
        let pointer = if index == self.cursor {
            ">"
        } else {
            " "
        };
        let state = if self.checked[index] {
            "[x]"
        } else {
            "[ ]"
        };
        let mut text = concat3(pointer, " ", state);
        text.push_str(" ");
        text.push_str(&self.models[index].id);
        text
    }

    /// The lines of the picker.
    pub fn draw_model_picker(&self) -> (r: Vec<String>)
        requires
            self@.well_formed(),
        ensures
            views(r@) == self@.shown(),
    {
        let size: usize = self.models.len();
        let above: usize = self.cursor.saturating_sub(MODEL_VIEWPORT_ROWS - 1);
        let most: usize = size.saturating_sub(MODEL_VIEWPORT_ROWS);
        let start: usize = if above < most {
            above
        } else {
            most
        };
        let end: usize = if size - start > MODEL_VIEWPORT_ROWS {
            start + MODEL_VIEWPORT_ROWS
        } else {
            size
        };
        assert(start == self@.viewport_start());
        assert(end == self@.viewport_end());
        let mut title = concat3(
            "Enable models · ",
            &decimal_text(self.checked_count() as u64),
            " of ",
        );
        title.push_str(&decimal_text(size as u64));
        title.push_str(" checked");
        let ghost heading = title@;
        let ghost rows = Seq::new((end - start) as nat, |i: int| self@.row(start + i));
        let mut lines: Vec<String> = Vec::new();
        lines.push(title);
        let mut i: usize = start;
        assert(views(lines@) =~= seq![heading] + rows.take(0));
        while i < end
            invariant
                start <= i <= end <= size,
                size == self@.models.len(),
                self@.well_formed(),
                rows == Seq::new((end - start) as nat, |i: int| self@.row(start + i)),
                views(lines@) == seq![heading] + rows.take(i - start),
            decreases end - i,
        {
            let line = self.row(i);
            let ghost added = line@;
            let ghost before = views(lines@);
            lines.push(line);
            assert(views(lines@) =~= before.push(added));
            assert(added == rows[i - start]);
            assert(rows.take(i - start + 1) =~= rows.take(i - start).push(added));
            i += 1;
        }
        assert(rows.take(end - start) =~= rows);
        let ghost listed = views(lines@);
        let gap = String::new();
        let footer = match &self.notice {
            Some(notice) => notice.clone(),
            None => "↑/↓ move · space check · enter continue · esc cancel".to_owned(),
        };
        assert(gap@ =~= seq![]);
        let ghost rest = seq![gap@, footer@];
        lines.push(gap);
        lines.push(footer);
        assert(views(lines@) =~= listed + rest);
        assert(views(lines@) =~= self@.shown());
        lines
    }
}

/// The model under the cursor is always shown, and no more rows than the
/// viewport has.
pub proof fn the_cursor_stays_visible(picker: ModelPickerView)
    requires
        picker.well_formed(),
    ensures
        0 <= picker.viewport_start() <= picker.cursor < picker.viewport_end()
            <= picker.models.len(),
        picker.viewport_end() - picker.viewport_start() <= MODEL_VIEWPORT_ROWS,
{
}

/// What is chosen are checked models, at least one of them.
pub proof fn something_is_chosen(picker: ModelPickerView, key: Key)
    requires
        picker.well_formed(),
    ensures
        picker.pressed(key).1 matches PickerOutcomeView::Chosen(entries) ==> entries.len() > 0
            && entries.len() == count_checked(picker.checked),
{
    chosen_are_counted(picker.models, picker.checked, picker.models.len() as int);
    assert(picker.models.take(picker.models.len() as int) =~= picker.models);
    assert(picker.checked.take(picker.models.len() as int) =~= picker.checked);
}

proof fn chosen_are_counted(models: Seq<ModelInfoView>, checked: Seq<bool>, size: int)
    requires
        models.len() == checked.len(),
        0 <= size <= models.len(),
    ensures
        chosen_models(models.take(size), checked).len() == count_checked(checked.take(size)),
    decreases size,
{
    if size > 0 {
        chosen_are_counted(models, checked, size - 1);
        assert(models.take(size).drop_last() =~= models.take(size - 1));
        assert(checked.take(size).drop_last() =~= checked.take(size - 1));
    }
}

/// The content of a [`Listing`].
#[verifier::ext_equal]
pub enum ListingView {
    Models(Seq<ModelInfoView>),
    Failed(Text),
}

/// What a provider answered when it was asked for its models.
#[derive(Debug, Eq, PartialEq)]
pub enum Listing {
    Models(Vec<ModelInfo>),
    Failed(String),
}

impl View for Listing {
    type V = ListingView;

    open spec fn view(&self) -> ListingView {
        match self {
            Listing::Models(item) => ListingView::Models(views(item@)),
            Listing::Failed(item) => ListingView::Failed(item@),
        }
    }
}

impl Clone for Listing {
    fn clone(&self) -> (r: Self)
        ensures
            r@ == self@,
    {
        let r = match self {
            Listing::Models(item) => Listing::Models(item.clone()),
            Listing::Failed(item) => Listing::Failed(item.clone()),
        };
        assert(r@ =~~= self@);
        r
    }
}

/// The content of a [`DiscoveryStep`].
#[verifier::ext_equal]
pub enum DiscoveryStepView {
    Ask(AuthStyle),
    Pick { models: Seq<ModelInfoView>, auth: AuthStyle, alternate: bool },
    TypeIn(Text),
}

/// What to do next: ask the provider, let the user pick from what it listed, or
/// let them type the models in, with the reason.
#[derive(Debug, Eq, PartialEq)]
pub enum DiscoveryStep {
    Ask(AuthStyle),
    Pick { models: Vec<ModelInfo>, auth: AuthStyle, alternate: bool },
    TypeIn(String),
}

impl View for DiscoveryStep {
    type V = DiscoveryStepView;

    open spec fn view(&self) -> DiscoveryStepView {
        match self {
            DiscoveryStep::Ask(item) => DiscoveryStepView::Ask(*item),
            DiscoveryStep::Pick { models, auth, alternate } => DiscoveryStepView::Pick {
                models: views(models@),
                auth: *auth,
                alternate: *alternate,
            },
            DiscoveryStep::TypeIn(item) => DiscoveryStepView::TypeIn(item@),
        }
    }
}

impl Clone for DiscoveryStep {
    fn clone(&self) -> (r: Self)
        ensures
            r@ == self@,
    {
        let r = match self {
            DiscoveryStep::Ask(item) => DiscoveryStep::Ask(*item),
            DiscoveryStep::Pick { models, auth, alternate } => DiscoveryStep::Pick {
                models: models.clone(),
                auth: *auth,
                alternate: *alternate,
            },
            DiscoveryStep::TypeIn(item) => DiscoveryStep::TypeIn(item.clone()),
        };
        assert(r@ =~~= self@);
        r
    }
}

/// How far the search for a provider's models has come.
#[derive(Clone, Copy, Debug, Eq, PartialEq, Structural)]
pub enum DiscoveryPhase {
    First,
    Second,
    Done,
}

/// The content of a [`Discovery`].
#[verifier::ext_equal]
pub struct DiscoveryView {
    pub phase: DiscoveryPhase,
    pub has_key: bool,
    pub reason: Text,
}

/// The search for the models of a new provider. Some gateways accept only the
/// other header, so that a failed listing is tried again with it.
#[derive(Debug, Eq, PartialEq)]
pub struct Discovery {
    pub phase: DiscoveryPhase,
    pub has_key: bool,
    pub reason: String,
}

impl View for Discovery {
    type V = DiscoveryView;

    open spec fn view(&self) -> DiscoveryView {
        DiscoveryView {
            phase: self.phase,
            has_key: self.has_key,
            reason: self.reason@,
        }
    }
}

impl Clone for Discovery {
    fn clone(&self) -> (r: Self)
        ensures
            r@ == self@,
    {
        let r = Discovery {
            phase: self.phase,
            has_key: self.has_key,
            reason: self.reason.clone(),
        };
        assert(r@ =~~= self@);
        r
    }
}

/// Why models have to be typed in.
pub open spec fn listing_reason(listing: ListingView) -> Text {
    match listing {
        ListingView::Models(_) => "The provider listed no models; enter them manually."@,
        ListingView::Failed(error) => "Could not list models ("@ + error
            + "); enter them manually."@,
    }
}

impl DiscoveryView {
    /// The state and the next step after an answer of the provider.
    pub open spec fn step(self, listing: ListingView) -> (DiscoveryView, DiscoveryStepView) {
        let auth = if self.phase is First {
            AuthStyle::Bearer
        } else {
            AuthStyle::Bearer.other()
        };
        match listing {
            ListingView::Models(models) if models.len() > 0 => (
                DiscoveryView { phase: DiscoveryPhase::Done, ..self },
                DiscoveryStepView::Pick { models, auth, alternate: !(self.phase is First) },
            ),
            _ => if self.phase is First {
                if self.has_key {
                    (
                        DiscoveryView {
                            phase: DiscoveryPhase::Second,
                            reason: listing_reason(listing),
                            ..self
                        },
                        DiscoveryStepView::Ask(AuthStyle::Bearer.other()),
                    )
                } else {
                    (
                        DiscoveryView { phase: DiscoveryPhase::Done, ..self },
                        DiscoveryStepView::TypeIn(listing_reason(listing)),
                    )
                }
            } else {
                (
                    DiscoveryView { phase: DiscoveryPhase::Done, ..self },
                    DiscoveryStepView::TypeIn(self.reason),
                )
            },
        }
    }
}

impl Discovery {
    /// Begins the search: the provider is asked with a bearer token.
    pub fn begin(has_key: bool) -> (r: (Discovery, DiscoveryStep))
        ensures
            r.0@ == (DiscoveryView { phase: DiscoveryPhase::First, has_key, reason: seq![] }),
            r.1@ == DiscoveryStepView::Ask(AuthStyle::Bearer),
    {
        let reason = String::new();
        assert(reason@ =~= seq![]);
        (
            Discovery { phase: DiscoveryPhase::First, has_key, reason },
            DiscoveryStep::Ask(AuthStyle::Bearer),
        )
    }

    /// Takes an answer of the provider.
    pub fn step(&mut self, listing: Listing) -> (r: DiscoveryStep)
        ensures
            old(self)@.step(listing@) == (final(self)@, r@),
    {
        let first = self.phase == DiscoveryPhase::First;
        let reason = match listing {
            Listing::Models(models) => {
                if models.len() > 0 {
                    let auth = if first {
                        AuthStyle::Bearer
                    } else {
                        AuthStyle::Bearer.alternate()
                    };
                    self.phase = DiscoveryPhase::Done;
                    return DiscoveryStep::Pick { models, auth, alternate: !first };
                }
                "The provider listed no models; enter them manually.".to_owned()
            },
            Listing::Failed(error) => concat3(
                "Could not list models (",
                &error,
                "); enter them manually.",
            ),
        };
        if first && self.has_key {
            self.phase = DiscoveryPhase::Second;
            self.reason = reason;
            DiscoveryStep::Ask(AuthStyle::Bearer.alternate())
        } else {
            self.phase = DiscoveryPhase::Done;
            DiscoveryStep::TypeIn(
                if first {
                    reason
                } else {
                    self.reason.clone()
                },
            )
        }
    }
}

/// A provider is asked at most twice, and a second time only with a key and the
/// other header. The reason shown at the end is that of the first failure.
pub proof fn discovery_is_short(search: DiscoveryView, first: ListingView, second: ListingView)
    requires
        search.phase is First,
        first matches ListingView::Models(models) ==> models.len() == 0,
    ensures
        !search.has_key ==> search.step(first).1 == DiscoveryStepView::TypeIn(
            listing_reason(first),
        ),
        search.has_key ==> search.step(first).1 == DiscoveryStepView::Ask(AuthStyle::XApiKey)
            && search.step(first).0.step(second).0.phase is Done && (
        second matches ListingView::Models(models) ==> (models.len() == 0 ==> search.step(
            first,
        ).0.step(second).1 == DiscoveryStepView::TypeIn(listing_reason(first)))) && (
        second is Failed ==> search.step(first).0.step(second).1 == DiscoveryStepView::TypeIn(
            listing_reason(first),
        )),
{
}

/// A provider that rejects the bearer token but lists its models with the other
/// header is set up with that header, and a key is then sent in it.
pub proof fn the_working_header_is_kept(
    search: DiscoveryView,
    first: ListingView,
    models: Seq<ModelInfoView>,
    key: Text,
)
    requires
        search.phase is First,
        search.has_key,
        first matches ListingView::Models(none) ==> none.len() == 0,
        models.len() > 0,
    ensures
        search.step(first).0.step(ListingView::Models(models)).1 == (DiscoveryStepView::Pick {
            models,
            auth: AuthStyle::XApiKey,
            alternate: true,
        }),
        auth_header_spec(Some(key), AuthStyle::XApiKey) == Some(("x-api-key"@, key)),
        auth_header_spec(Some(key), AuthStyle::Bearer) == Some(
            ("authorization"@, "Bearer "@ + key),
        ),
{
}

/// What is wrong with adding a provider under this id, if anything: the id is
/// empty, or it is taken.
pub fn provider_objection(id: &str, taken: bool, registry_path: &str) -> (r: Option<String>)
    ensures
        opt_view(r) == if id@.len() == 0 {
            Some("name must contain at least one letter or number"@)
        } else if taken {
            Some("provider "@ + debug_form(id@) + " already exists in "@ + registry_path@)
        } else {
            None
        },
{
    if id.is_empty() {
        return Some("name must contain at least one letter or number".to_owned());
    }
    if taken {
        let mut text = concat3("provider ", &debug_text(id), " already exists in ");
        text.push_str(registry_path);
        return Some(text);
    }
    None
}

/// The registry entry of a provider that was added in the dialogue.
pub fn added_provider(name: String, base_url: String, models: Vec<ModelEntry>, auth: AuthStyle) -> (r:
    ProviderConfig)
    ensures
        r@ == (ProviderConfigView {
            name: name@,
            base_url: base_url@,
            api_format: ApiFormat::ChatCompletions,
            models: views(models@),
            api_key_env: None,
            auth,
        }),
{
    ProviderConfig {
        name,
        base_url,
        api_format: ApiFormat::ChatCompletions,
        models,
        api_key_env: None,
        auth,
    }
}

/// What is said once a provider was added.
pub fn added_message(id: &str) -> (r: String)
    ensures
        r@ == "Added "@ + debug_form(id@)
            + " using chat completions. Start or restart nexa-server, then run `nexa chat`."@,
{
    concat3(
        "Added ",
        &debug_text(id),
        " using chat completions. Start or restart nexa-server, then run `nexa chat`.",
    )
}

/// The content of a [`Variable`].
#[verifier::ext_equal]
pub enum VariableView {
    Missing,
    Unreadable(Text),
    Value(Text),
}

/// An environment variable.
#[derive(Debug, Eq, PartialEq)]
pub enum Variable {
    Missing,
    Unreadable(String),
    Value(String),
}

impl View for Variable {
    type V = VariableView;

    open spec fn view(&self) -> VariableView {
        match self {
            Variable::Missing => VariableView::Missing,
            Variable::Unreadable(item) => VariableView::Unreadable(item@),
            Variable::Value(item) => VariableView::Value(item@),
        }
    }
}

impl Clone for Variable {
    fn clone(&self) -> (r: Self)
        ensures
            r@ == self@,
    {
        let r = match self {
            Variable::Missing => Variable::Missing,
            Variable::Unreadable(item) => Variable::Unreadable(item.clone()),
            Variable::Value(item) => Variable::Value(item.clone()),
        };
        assert(r@ =~~= self@);
        r
    }
}

/// The content of a [`TokenChoice`].
#[verifier::ext_equal]
pub enum TokenChoiceView {
    Use(Text),
    Load,
    Anonymous,
}

/// Which token the client uses: a given one, the local server's own, or none.
#[derive(Debug, Eq, PartialEq)]
pub enum TokenChoice {
    Use(String),
    Load,
    Anonymous,
}

impl View for TokenChoice {
    type V = TokenChoiceView;

    open spec fn view(&self) -> TokenChoiceView {
        match self {
            TokenChoice::Use(item) => TokenChoiceView::Use(item@),
            TokenChoice::Load => TokenChoiceView::Load,
            TokenChoice::Anonymous => TokenChoiceView::Anonymous,
        }
    }
}

impl Clone for TokenChoice {
    fn clone(&self) -> (r: Self)
        ensures
            r@ == self@,
    {
        let r = match self {
            TokenChoice::Use(item) => TokenChoice::Use(item.clone()),
            TokenChoice::Load => TokenChoice::Load,
            TokenChoice::Anonymous => TokenChoice::Anonymous,
        };
        assert(r@ =~~= self@);
        r
    }
}

/// The token for a server. A local server has a token file of its own.
pub open spec fn token_choice(variable: VariableView, local_server: bool) -> Result<
    TokenChoiceView,
    Text,
> {
    match variable {
        VariableView::Value(token) => if trim(token).len() > 0 {
            Ok(TokenChoiceView::Use(token))
        } else {
            Err("NEXA_SERVER_TOKEN must not be empty"@)
        },
        VariableView::Missing => if local_server {
            Ok(TokenChoiceView::Load)
        } else {
            Ok(TokenChoiceView::Anonymous)
        },
        VariableView::Unreadable(error) => Err(error),
    }
}

pub fn server_token_choice(variable: Variable, local_server: bool) -> (r: Result<TokenChoice, String>)
    ensures
        match r {
            Ok(choice) => token_choice(variable@, local_server) == Ok::<TokenChoiceView, Text>(
                choice@,
            ),
            Err(error) => token_choice(variable@, local_server) == Err::<TokenChoiceView, Text>(
                error@,
            ),
        },
{
    match variable {
        Variable::Value(token) => {
            if is_blank(&token) {
                Err("NEXA_SERVER_TOKEN must not be empty".to_owned())
            } else {
                Ok(TokenChoice::Use(token))
            }
        },
        Variable::Missing => {
            if local_server {
                Ok(TokenChoice::Load)
            } else {
                Ok(TokenChoice::Anonymous)
            }
        },
        Variable::Unreadable(error) => Err(error),
    }
}

/// The address of the local server.
pub fn default_server_url(port: Option<String>) -> (r: String)
    ensures
        r@ == "http://127.0.0.1:"@ + match opt_view(port) {
            Some(port) => port,
            None => "4123"@,
        },
{
    match port {
        Some(port) => concat("http://127.0.0.1:", &port),
        None => concat("http://127.0.0.1:", "4123"),
    }
}

/// The model that the settings prefer.
pub open spec fn preferred(settings: SettingsFileView) -> Option<ModelRefView> {
    match settings.models.default {
        Some(model) => Some(ModelRefView { provider: model.provider, id: model.model }),
        None => None,
    }
}

pub fn preferred_model(settings: &SettingsFile) -> (r: Option<ModelRef>)
    ensures
        opt_view(r) == preferred(settings@),
{
    match &settings.models.default {
        Some(model) => Some(
            ModelRef { provider: model.provider.clone(), id: model.model.clone() },
        ),
        None => None,
    }
}

/// The settings with another model and effort as the defaults. What belongs to
/// the desktop client stays as it is.
pub open spec fn with_defaults(
    settings: SettingsFileView,
    model: ModelRefView,
    effort: Option<ReasoningEffort>,
) -> SettingsFileView {
    SettingsFileView {
        models: ModelsSettingsView {
            default: Some(DefaultModelView { provider: model.provider, model: model.id }),
            default_reasoning_effort: effort,
        },
        desktop: settings.desktop,
    }
}

/// The settings to write after a chat, if the model or the effort changed in
/// it.
pub fn settings_to_save(settings: SettingsFile, model: &ModelRef, effort: Option<ReasoningEffort>) -> (r:
    Option<SettingsFile>)
    ensures
        opt_view(r) == if preferred(settings@) == Some(model@)
            && settings@.models.default_reasoning_effort == effort {
            None
        } else {
            Some(with_defaults(settings@, model@, effort))
        },
{
    let same_model = match preferred_model(&settings) {
        Some(preferred) => preferred.same_as(model),
        None => false,
    };
    let same_effort = match (settings.models.default_reasoning_effort, effort) {
        (None, None) => true,
        (Some(a), Some(b)) => a == b,
        _ => false,
    };
    if same_model && same_effort {
        return None;
    }
    Some(
        SettingsFile {
            models: ModelsSettings {
                default: Some(
                    DefaultModel { provider: model.provider.clone(), model: model.id.clone() },
                ),
                default_reasoning_effort: effort,
            },
            desktop: settings.desktop,
        },
    )
}

/// What a chat leaves as the defaults is what the next chat prefers, and the
/// desktop client's own state survives.
pub proof fn defaults_are_remembered(
    settings: SettingsFileView,
    model: ModelRefView,
    effort: Option<ReasoningEffort>,
)
    ensures
        preferred(with_defaults(settings, model, effort)) == Some(model),
        with_defaults(settings, model, effort).models.default_reasoning_effort == effort,
        with_defaults(settings, model, effort).desktop == settings.desktop,
{
}

/// Whether a character may stand in a derived id.
pub open spec fn is_slug_char(c: char) -> bool {
    is_plain(c) || c == '-'
}

/// Whether a text is a group: letters and digits, at least one.
spec fn is_group(group: Text) -> bool {
    group.len() > 0 && forall|k: int| 0 <= k < group.len() ==> is_plain(#[trigger] group[k])
}

proof fn groups_are_plain(s: Text)
    ensures
        forall|i: int| 0 <= i < plain_groups(s).len() ==> is_group(#[trigger] plain_groups(s)[i]),
    decreases s.len(),
{
    if s.len() > 0 {
        if !is_plain(s[0]) {
            groups_are_plain(s.drop_first());
            assert(plain_groups(s) == plain_groups(s.drop_first()));
        } else {
            let size = plain_length(s);
            plain_length_bounds(s);
            let rest = plain_groups(s.skip(size));
            groups_are_plain(s.skip(size));
            let all = plain_groups(s);
            assert(all == seq![s.take(size)] + rest);
            assert forall|i: int| 0 <= i < all.len() implies is_group(#[trigger] all[i]) by {
                if i > 0 {
                    assert(all[i] == rest[i - 1]);
                } else {
                    assert(all[0] == s.take(size));
                    assert forall|k: int| 0 <= k < size implies is_plain(
                        #[trigger] s.take(size)[k],
                    ) by {
                        assert(s.take(size)[k] == s[k]);
                    }
                }
            }
        }
    } else {
        assert(plain_groups(s).len() == 0);
    }
}

/// Whether a text is made of ASCII letters, digits and single hyphens between
/// them.
pub open spec fn is_slug(id: Text) -> bool {
    &&& forall|i: int| 0 <= i < id.len() ==> is_slug_char(#[trigger] id[i])
    &&& id.len() > 0 ==> id[0] != '-' && id.last() != '-'
    &&& forall|i: int|
        0 < i < id.len() ==> !(#[trigger] id[i] == '-' && id[i - 1] == '-')
}

proof fn joined_groups_are_slugs(groups: Seq<Text>)
    requires
        forall|i: int| 0 <= i < groups.len() ==> is_group(#[trigger] groups[i]),
    ensures
        is_slug(join(groups, "-"@)),
        groups.len() > 0 ==> join(groups, "-"@).len() > 0,
    decreases groups.len(),
{
    reveal_strlit("-");
    let whole = join(groups, "-"@);
    if groups.len() == 1 {
        assert(is_group(groups[0]));
        assert(whole == groups[0]);
        assert(is_plain(whole[0]));
        assert(is_plain(whole.last()));
    } else if groups.len() > 1 {
        let front = groups.drop_last();
        assert forall|i: int| 0 <= i < front.len() implies is_group(#[trigger] front[i]) by {
            assert(front[i] == groups[i]);
        }
        joined_groups_are_slugs(front);
        let before = join(front, "-"@);
        let last = groups.last();
        assert(last == groups[groups.len() - 1]);
        assert(is_group(last));
        assert(whole == before + "-"@ + last);
        assert forall|i: int| 0 <= i < whole.len() implies is_slug_char(#[trigger] whole[i]) by {
            if i < before.len() {
                assert(whole[i] == before[i]);
            } else if i > before.len() {
                assert(whole[i] == last[i - before.len() - 1]);
                assert(is_plain(last[i - before.len() - 1]));
            }
        }
        assert(whole[0] == before[0]);
        assert(whole.last() == last.last());
        assert(is_plain(last[last.len() - 1]));
        assert forall|i: int| 0 < i < whole.len() implies !(#[trigger] whole[i] == '-' && whole[i
            - 1] == '-') by {
            if i < before.len() {
                assert(whole[i] == before[i]);
                assert(whole[i - 1] == before[i - 1]);
            } else if i == before.len() {
                assert(whole[i - 1] == before.last());
            } else {
                assert(whole[i] == last[i - before.len() - 1]);
                assert(is_plain(last[i - before.len() - 1]));
            }
        }
    }
}

/// A derived id is made of ASCII letters, digits and single hyphens between
/// them; it never holds a slash, so that `provider/model` stays unambiguous.
pub proof fn derived_ids_are_slugs(name: Text)
    ensures
        is_slug(slug(name)),
        !slug(name).contains('/'),
        slug(name).len() == 0 <==> plain_groups(name).len() == 0,
{
    groups_are_plain(name);
    joined_groups_are_slugs(plain_groups(name));
    let id = slug(name);
    assert forall|i: int| 0 <= i < id.len() implies id[i] != '/' by {
        assert(is_slug_char(id[i]));
    }
}

proof fn groups_hold_no_capitals(s: Text)
    requires
        no_capitals(s),
    ensures
        forall|i: int|
            0 <= i < plain_groups(s).len() ==> no_capitals(#[trigger] plain_groups(s)[i]),
    decreases s.len(),
{
    if s.len() > 0 {
        if !is_plain(s[0]) {
            groups_hold_no_capitals(s.drop_first());
            assert(plain_groups(s) == plain_groups(s.drop_first()));
        } else {
            let size = plain_length(s);
            plain_length_bounds(s);
            let rest = plain_groups(s.skip(size));
            groups_hold_no_capitals(s.skip(size));
            let all = plain_groups(s);
            assert(all == seq![s.take(size)] + rest);
            assert forall|i: int| 0 <= i < all.len() implies no_capitals(#[trigger] all[i]) by {
                if i > 0 {
                    assert(all[i] == rest[i - 1]);
                }
            }
        }
    } else {
        assert(plain_groups(s).len() == 0);
    }
}

proof fn joined_groups_hold_no_capitals(groups: Seq<Text>)
    requires
        forall|i: int| 0 <= i < groups.len() ==> no_capitals(#[trigger] groups[i]),
    ensures
        no_capitals(join(groups, "-"@)),
    decreases groups.len(),
{
    reveal_strlit("-");
    if groups.len() == 1 {
        assert(no_capitals(groups[0]));
    } else if groups.len() > 1 {
        let front = groups.drop_last();
        assert forall|i: int| 0 <= i < front.len() implies no_capitals(#[trigger] front[i]) by {
            assert(front[i] == groups[i]);
        }
        joined_groups_hold_no_capitals(front);
        assert(no_capitals(groups[groups.len() - 1]));
    }
}

proof fn group_is_measured(group: Text, rest: Text)
    requires
        forall|k: int| 0 <= k < group.len() ==> is_plain(#[trigger] group[k]),
        rest.len() > 0 ==> !is_plain(rest[0]),
    ensures
        plain_length(group + rest) == group.len(),
    decreases group.len(),
{
    let whole = group + rest;
    if group.len() > 0 {
        assert(is_plain(group[0]));
        assert(whole.drop_first() =~= group.drop_first() + rest);
        group_is_measured(group.drop_first(), rest);
    } else {
        assert(whole =~= rest);
    }
}

proof fn joined_groups_are_read_back(groups: Seq<Text>)
    requires
        forall|i: int| 0 <= i < groups.len() ==> is_group(#[trigger] groups[i]),
    ensures
        plain_groups(join(groups, "-"@)) == groups,
    decreases groups.len(),
{
    reveal_strlit("-");
    let whole = join(groups, "-"@);
    if groups.len() > 0 {
        let first = groups[0];
        assert(is_group(first));
        assert(is_plain(first[0]));
        let others = groups.drop_first();
        let rest = if groups.len() == 1 {
            Seq::<char>::empty()
        } else {
            "-"@ + join(others, "-"@)
        };
        if groups.len() > 1 {
            join_from_the_front(groups, "-"@);
            assert(rest.drop_first() =~= join(others, "-"@));
        }
        assert forall|i: int| 0 <= i < others.len() implies is_group(#[trigger] others[i]) by {
            assert(others[i] == groups[i + 1]);
        }
        joined_groups_are_read_back(others);
        assert(whole =~= first + rest);
        group_is_measured(first, rest);
        assert(whole.take(first.len() as int) =~= first);
        assert(whole.skip(first.len() as int) =~= rest);
        assert(plain_groups(rest) == others);
        assert(groups =~= seq![first] + others);
    } else {
        assert(groups =~= seq![]);
    }
}

proof fn plain_text_is_lowered_already(s: Text)
    requires
        no_capitals(s),
        forall|i: int| 0 <= i < s.len() ==> is_slug_char(#[trigger] s[i]),
    ensures
        lowered(s) == s,
    decreases s.len(),
{
    if s.len() > 0 {
        let front = s.drop_last();
        assert forall|i: int| 0 <= i < front.len() implies is_slug_char(#[trigger] front[i]) by {
            assert(front[i] == s[i]);
        }
        plain_text_is_lowered_already(front);
        let last = s[s.len() - 1];
        assert(is_slug_char(last));
        assert(lower_form(last) =~= seq![last]);
        assert(lowered(s) =~= s);
    }
}

/// An id made of a text in lowercase holds no capital and is settled: the id of
/// the id is the id itself.
pub proof fn ids_are_settled(low: Text)
    requires
        no_capitals(low),
    ensures
        no_capitals(slug(low)),
        slug(lowered(slug(low))) == slug(low),
{
    groups_are_plain(low);
    groups_hold_no_capitals(low);
    joined_groups_hold_no_capitals(plain_groups(low));
    derived_ids_are_slugs(low);
    joined_groups_are_read_back(plain_groups(low));
    plain_text_is_lowered_already(slug(low));
}

proof fn a_word_is_not_blank(s: Text)
    requires
        s.len() > 0,
        !is_space(s[0]),
    ensures
        trim(s).len() > 0,
    decreases s.len(),
{
    assert(trim_start(s) == s);
    if is_space(s.last()) {
        let shorter = s.drop_last();
        assert(shorter[0] == s[0]);
        a_word_is_not_blank(shorter);
        assert(trim_start(shorter) == shorter);
    }
}

/// A provider that went through the dialogue is accepted by the registry: its
/// derived id is not blank, and neither are its answers.
pub proof fn dialogue_providers_are_accepted(
    name: Text,
    base_url: Text,
    models: Seq<ModelEntryView>,
    auth: AuthStyle,
)
    requires
        slug(lowered(name)).len() > 0,
        trim(name).len() > 0,
        trim(base_url).len() > 0,
        models.len() > 0,
        forall|i: int| 0 <= i < models.len() ==> trim(#[trigger] models[i].id()).len() > 0,
    ensures
        provider_fault(
            slug(lowered(name)),
            ProviderConfigView {
                name,
                base_url: with_scheme(base_url),
                api_format: ApiFormat::ChatCompletions,
                models,
                api_key_env: None,
                auth,
            },
        ) is None,
{
    let id = slug(lowered(name));
    derived_ids_are_slugs(lowered(name));
    assert(is_slug_char(id[0]));
    a_word_is_not_blank(id);
    reveal_strlit("http://");
    if find(base_url, "://"@) is None {
        let whole = "http://"@ + base_url;
        assert(whole[0] == 'h');
        a_word_is_not_blank(whole);
    }
}

/// The ASCII letters and digits of a text, in their order.
pub open spec fn plain_chars(s: Text) -> Text
    decreases s.len(),
{
    if s.len() == 0 {
        seq![]
    } else {
        let before = plain_chars(s.drop_last());
        let c = s.last();
        if 'a' <= c <= 'z' || 'A' <= c <= 'Z' || '0' <= c <= '9' {
            before.push(c)
        } else {
            before
        }
    }
}

proof fn plain_chars_join(a: Text, b: Text)
    ensures
        plain_chars(a + b) == plain_chars(a) + plain_chars(b),
    decreases b.len(),
{
    if b.len() == 0 {
        assert(a + b =~= a);
        assert(plain_chars(a) + plain_chars(b) =~= plain_chars(a));
    } else {
        plain_chars_join(a, b.drop_last());
        assert((a + b).drop_last() =~= a + b.drop_last());
        assert(plain_chars(a + b) =~= plain_chars(a) + plain_chars(b));
    }
}

proof fn no_plain_chars(s: Text)
    requires
        s.len() == 1,
        !is_plain(s[0]),
    ensures
        plain_chars(s) == Seq::<char>::empty(),
{
    assert(s.drop_last() =~= Seq::<char>::empty());
    assert(plain_chars(s.drop_last()) == Seq::<char>::empty());
}

proof fn joined_groups_keep_plain_chars(head: Text, more: Seq<Text>)
    ensures
        plain_chars(join(seq![head] + more, "-"@)) == plain_chars(head) + plain_chars(
            join(more, "-"@),
        ),
{
    reveal_strlit("-");
    let groups = seq![head] + more;
    let rest = join(more, "-"@);
    assert(groups.drop_first() =~= more);
    if more.len() == 0 {
        assert(groups =~= seq![head]);
        assert(rest =~= Seq::<char>::empty());
        assert(plain_chars(rest) =~= Seq::<char>::empty());
        assert(plain_chars(head) + plain_chars(rest) =~= plain_chars(head));
    } else {
        join_from_the_front(groups, "-"@);
        assert(groups[0] == head);
        no_plain_chars("-"@);
        plain_chars_join(head, "-"@);
        plain_chars_join(head + "-"@, rest);
        assert(plain_chars(head) + Seq::<char>::empty() =~= plain_chars(head));
    }
}

proof fn slugs_keep_plain_chars(s: Text)
    ensures
        plain_chars(slug(s)) == plain_chars(s),
    decreases s.len(),
{
    if s.len() == 0 {
        assert(plain_groups(s) =~= seq![]);
        assert(slug(s) =~= s);
    } else if !is_plain(s[0]) {
        let first = seq![s[0]];
        let rest = s.drop_first();
        slugs_keep_plain_chars(rest);
        no_plain_chars(first);
        plain_chars_join(first, rest);
        assert(first + rest =~= s);
        assert(Seq::<char>::empty() + plain_chars(rest) =~= plain_chars(rest));
        assert(plain_groups(s) == plain_groups(rest));
    } else {
        let size = plain_length(s);
        plain_length_bounds(s);
        let head = s.take(size);
        let rest = s.skip(size);
        slugs_keep_plain_chars(rest);
        plain_chars_join(head, rest);
        assert(head + rest =~= s);
        assert(plain_groups(s) == seq![head] + plain_groups(rest));
        joined_groups_keep_plain_chars(head, plain_groups(rest));
    }
}

/// An id keeps every letter and digit of the name in lowercase, in their order.
pub proof fn ids_keep_letters_and_digits(name: Text)
    ensures
        plain_chars(slug(lowered(name))) == plain_chars(lowered(name)),
{
    slugs_keep_plain_chars(lowered(name));
}

/// An ASCII text is put into lowercase letter by letter.
pub proof fn ascii_names_are_lowered(name: Text)
    requires
        forall|i: int| 0 <= i < name.len() ==> #[trigger] name[i] <= '\u{7f}',
    ensures
        lowered(name).len() == name.len(),
        forall|i: int|
            0 <= i < name.len() ==> lowered(name)[i] as int == #[trigger] name[i] as int + if 'A'
                <= name[i] <= 'Z' {
                32int
            } else {
                0int
            },
    decreases name.len(),
{
    if name.len() > 0 {
        let front = name.drop_last();
        assert forall|i: int| 0 <= i < front.len() implies #[trigger] front[i] <= '\u{7f}' by {
            assert(front[i] == name[i]);
        }
        ascii_names_are_lowered(front);
        assert(name.last() == name[name.len() - 1]);
        assert(name.last() <= '\u{7f}');
        assert(lower_form(name.last()).len() == 1);
        assert forall|i: int| 0 <= i < name.len() implies lowered(name)[i] as int
            == #[trigger] name[i] as int + if 'A' <= name[i] <= 'Z' {
            32int
        } else {
            0int
        } by {
            if i < front.len() {
                assert(front[i] == name[i]);
            }
        }
    }
}

/// A base address that has a scheme stays as it is, and one that has none gets one; what
/// comes out has one.
pub proof fn addresses_get_a_scheme(base_url: Text)
    ensures
        find(base_url, "://"@) is Some ==> with_scheme(base_url) == base_url,
        find(with_scheme(base_url), "://"@) is Some,
        with_scheme(with_scheme(base_url)) == with_scheme(base_url),
        find(base_url, "://"@) is None ==> with_scheme(base_url) == "http://"@ + base_url,
{
    reveal_strlit("http://");
    reveal_strlit("://");
    if find(base_url, "://"@) is None {
        let whole = "http://"@ + base_url;
        let at = whole.skip(4);
        assert(at.take(3) =~= "://"@);
        assert(whole.drop_first().drop_first().drop_first().drop_first() =~= at);
        reveal_with_fuel(find, 5);
        assert(find(at, "://"@) is Some);
        assert(find(whole.drop_first().drop_first().drop_first(), "://"@) is Some);
        assert(find(whole.drop_first().drop_first(), "://"@) is Some);
        assert(find(whole.drop_first(), "://"@) is Some);
    }
}

/// The models that are typed in are the parts between the commas, without the white
/// space around them, in their order; empty parts say nothing.
pub proof fn typed_models_are_taken(parts: Seq<Text>, more: Seq<Text>, part: Text)
    ensures
        named_models(parts + more) == named_models(parts) + named_models(more),
        trim(part).len() > 0 ==> named_models(seq![part]) == seq![
            ModelEntryView::Plain(trim(part)),
        ],
        trim(part).len() == 0 ==> named_models(seq![part]).len() == 0,
        named_models(seq![]).len() == 0,
    decreases more.len(),
{
    assert(seq![part].drop_last() =~= seq![]);
    assert(named_models(seq![]) =~= seq![]);
    reveal_with_fuel(named_models, 2);
    if trim(part).len() > 0 {
        assert(named_models(seq![part]) =~= seq![ModelEntryView::Plain(trim(part))]);
    }
    if more.len() == 0 {
        assert(parts + more =~= parts);
        assert(named_models(parts) + named_models(more) =~= named_models(parts));
    } else {
        typed_models_are_taken(parts, more.drop_last(), part);
        assert((parts + more).drop_last() =~= parts + more.drop_last());
        assert(named_models(parts + more) =~= named_models(parts) + named_models(more));
    }
}

/// A checked model becomes an entry with its own id and the efforts it was listed
/// with.
pub proof fn entries_keep_their_model(model: ModelInfoView)
    ensures
        registry_entry(model).id() == model.id,
        registry_entry(model).efforts() == model.reasoning_efforts,
{
}

/// Every checked model is chosen, and stands behind as many as are checked before it;
/// nothing else is chosen.
pub proof fn checked_models_are_chosen(models: Seq<ModelInfoView>, checked: Seq<bool>, i: int)
    requires
        models.len() == checked.len(),
        0 <= i < models.len(),
    ensures
        chosen_models(models, checked).len() == count_checked(checked),
        count_checked(checked.take(i + 1)) == count_checked(checked.take(i)) + if checked[i] {
            1int
        } else {
            0int
        },
        count_checked(checked.take(0)) == 0,
        checked[i] ==> 0 <= count_checked(checked.take(i)) < chosen_models(models, checked).len()
            && chosen_models(models, checked)[count_checked(checked.take(i)) as int]
            == registry_entry(models[i]),
{
    let size = models.len() as int;
    assert(models.take(size) =~= models);
    assert(checked.take(size) =~= checked);
    chosen_are_counted(models, checked, size);
    assert(checked.take(i + 1).drop_last() =~= checked.take(i));
    if checked[i] {
        checked_models_stay_chosen(models, checked, i, size);
    }
}

proof fn checked_models_stay_chosen(
    models: Seq<ModelInfoView>,
    checked: Seq<bool>,
    i: int,
    size: int,
)
    requires
        models.len() == checked.len(),
        0 <= i < size <= models.len(),
        checked[i],
    ensures
        count_checked(checked.take(i)) < chosen_models(models.take(size), checked).len(),
        chosen_models(models.take(size), checked)[count_checked(checked.take(i)) as int]
            == registry_entry(models[i]),
    decreases size,
{
    let some = models.take(size);
    assert(some.drop_last() =~= models.take(size - 1));
    chosen_are_counted(models, checked, size - 1);
    if i < size - 1 {
        checked_models_stay_chosen(models, checked, i, size - 1);
    }
}

/// The keys of the picker: space checks the model under the cursor or takes its mark away
/// again, the arrows move the cursor by one and around the ends, enter takes the checked
/// models if there are any, escape leaves. No key touches anything else.
pub proof fn keys_pick_models(picker: ModelPickerView, key: Key)
    requires
        picker.well_formed(),
        picker.models.len() <= usize::MAX,
    ensures
        picker.pressed(key).0.models == picker.models,
        key.code == KeyCode::Char(' ') ==> ({
            let (next, outcome) = picker.pressed(key);
            &&& outcome is Stay
            &&& next.cursor == picker.cursor
            &&& next.checked.len() == picker.checked.len()
            &&& next.checked[picker.cursor as int] == !picker.checked[picker.cursor as int]
            &&& forall|i: int|
                0 <= i < picker.checked.len() && i != picker.cursor ==> next.checked[i]
                    == #[trigger] picker.checked[i]
            &&& next.pressed(key).0.checked == picker.checked
        }),
        key.code is Down ==> ({
            let (next, outcome) = picker.pressed(key);
            &&& outcome is Stay
            &&& next.checked == picker.checked
            &&& next.cursor == if picker.cursor + 1 == picker.models.len() {
                0
            } else {
                picker.cursor + 1
            }
        }),
        key.code is Up ==> ({
            let (next, outcome) = picker.pressed(key);
            &&& outcome is Stay
            &&& next.checked == picker.checked
            &&& next.cursor == if picker.cursor == 0 {
                picker.models.len() - 1
            } else {
                picker.cursor - 1
            }
        }),
        key.code is Esc ==> picker.pressed(key).1 is Cancel,
        key.code is Enter ==> picker.pressed(key).0.checked == picker.checked && picker.pressed(
            key,
        ).0.cursor == picker.cursor,
        key.code is Enter && count_checked(picker.checked) > 0 ==> picker.pressed(key).1
            == PickerOutcomeView::Chosen(chosen_models(picker.models, picker.checked)),
        key.code is Enter && count_checked(picker.checked) == 0 ==> picker.pressed(key).1 is Stay
            && picker.pressed(key).0.notice is Some,
{
    if key.code == KeyCode::Char(' ') {
        assert(picker.pressed(key).0.pressed(key).0.checked =~= picker.checked);
    }
    if key.code is Down {
        let size = picker.models.len() as int;
        if picker.cursor + 1 == size {
            assert((picker.cursor + 1) % size == 0) by (nonlinear_arith)
                requires
                    picker.cursor + 1 == size,
                    size > 0,
            ;
        } else {
            assert((picker.cursor + 1) % size == picker.cursor + 1) by (nonlinear_arith)
                requires
                    0 <= picker.cursor + 1 < size,
            ;
        }
    }
}

/// A row of the picker shows the id of its model, whether it is checked, and whether the
/// cursor stands on it.
pub proof fn rows_show_their_model(picker: ModelPickerView, index: int)
    requires
        picker.well_formed(),
        0 <= index < picker.models.len(),
    ensures
        picker.row(index).len() == 6 + picker.models[index].id.len(),
        picker.row(index).skip(6) == picker.models[index].id,
        picker.row(index)[0] == '>' <==> index == picker.cursor,
        picker.row(index)[3] == 'x' <==> picker.checked[index],
{
    reveal_strlit(">");
    reveal_strlit(" ");
    reveal_strlit("[x]");
    reveal_strlit("[ ]");
    assert(picker.row(index).skip(6) =~= picker.models[index].id);
}

/// A provider that lists models with the bearer token is picked from as listed, and set up
/// with that header.
pub proof fn listed_models_are_offered(search: DiscoveryView, models: Seq<ModelInfoView>)
    requires
        search.phase is First,
        models.len() > 0,
    ensures
        search.step(ListingView::Models(models)).1 == (DiscoveryStepView::Pick {
            models,
            auth: AuthStyle::Bearer,
            alternate: false,
        }),
{
}

/// The token of the environment is used as it is; a blank one is refused. Without one a local
/// server's own token is loaded, and another server is talked to without a token.
pub proof fn given_tokens_are_used(token: Text, local_server: bool)
    ensures
        trim(token).len() > 0 ==> token_choice(VariableView::Value(token), local_server) == Ok::<
            TokenChoiceView,
            Text,
        >(TokenChoiceView::Use(token)),
        trim(token).len() == 0 ==> token_choice(VariableView::Value(token), local_server) is Err,
        token_choice(VariableView::Missing, true) == Ok::<TokenChoiceView, Text>(
            TokenChoiceView::Load,
        ),
        token_choice(VariableView::Missing, false) == Ok::<TokenChoiceView, Text>(
            TokenChoiceView::Anonymous,
        ),
        token_choice(VariableView::Unreadable(token), local_server) == Err::<
            TokenChoiceView,
            Text,
        >(token),
{
}

/// After a chat the settings are written exactly if the model or the effort is another one, and
/// then hold those of the chat.
pub proof fn changed_defaults_are_written(
    settings: SettingsFile,
    model: ModelRef,
    effort: Option<ReasoningEffort>,
    r: Option<SettingsFile>,
)
    requires
        call_ensures(settings_to_save, (settings, &model, effort), r),
    ensures
        r is None <==> settings@.models.default == Some(
            DefaultModelView { provider: model@.provider, model: model@.id },
        ) && settings@.models.default_reasoning_effort == effort,
        r matches Some(written) ==> written@ == (SettingsFileView {
            models: ModelsSettingsView {
                default: Some(DefaultModelView { provider: model@.provider, model: model@.id }),
                default_reasoning_effort: effort,
            },
            desktop: settings@.desktop,
        }),
{
}

/// What was answered in the dialogue is what is registered.
pub proof fn answers_are_registered(
    name: String,
    base_url: String,
    models: Vec<ModelEntry>,
    auth: AuthStyle,
    r: ProviderConfig,
)
    requires
        call_ensures(added_provider, (name, base_url, models, auth), r),
    ensures
        r@.name == name@,
        r@.base_url == base_url@,
        r@.models == views(models@),
        r@.auth == auth,
        r@.api_format is ChatCompletions,
        r@.api_key_env is None,
{
}

/// A provider can be added exactly if its id says something and is not taken.
pub proof fn free_ids_can_be_added(
    id: &str,
    taken: bool,
    registry_path: &str,
    r: Option<String>,
)
    requires
        call_ensures(provider_objection, (id, taken, registry_path), r),
    ensures
        r is None <==> id@.len() > 0 && !taken,
{
}

/// A chat starts at once where a server is configured or a provider is registered.
pub proof fn chats_need_a_provider(server_configured: bool, providers: usize, r: bool)
    requires
        call_ensures(needs_setup, (server_configured, providers), r),
    ensures
        r <==> !server_configured && providers == 0,
{
}

/// An answer is taken without the white space around it, and asked for again where nothing is
/// left of it.
pub proof fn answers_are_trimmed(line: &str, r: Option<String>)
    requires
        call_ensures(required_answer, (line,), r),
    ensures
        r is None <==> trim(line@).len() == 0,
        r matches Some(answer) ==> answer@ == trim(line@),
{
}

/// What a command line means: nothing and `chat` start a chat, `provider add` adds a provider, the
/// help words show the help, and everything else is not known.
pub proof fn command_lines_are_understood(arguments: Seq<Text>)
    ensures
        command_of(arguments) is Chat <==> arguments == Seq::<Text>::empty() || arguments == seq![
            "chat"@,
        ],
        command_of(arguments) is AddProvider <==> arguments == seq!["provider"@, "add"@],
        command_of(arguments) is Help <==> arguments == seq!["help"@] || arguments == seq!["-h"@]
            || arguments == seq!["--help"@],
{
    reveal_strlit("chat");
    reveal_strlit("help");
    reveal_strlit("-h");
    reveal_strlit("--help");
    reveal_strlit("provider");
    if arguments.len() == 1 {
        assert(arguments =~= seq![arguments[0]]);
        assert("chat"@[0] == 'c' && "help"@[0] == 'h' && "-h"@[0] == '-' && "--help"@[0] == '-');
    } else if arguments.len() == 2 {
        assert(arguments =~= seq![arguments[0], arguments[1]]);
    } else if arguments.len() == 0 {
        assert(arguments =~= Seq::<Text>::empty());
    }
}

/// The list of models is moved no further than the cursor needs: not at all while the cursor is on
/// its first rows, and otherwise so that the cursor is on its last row or the list is at its end.
pub proof fn the_model_list_moves_with_the_cursor(picker: ModelPickerView)
    requires
        picker.well_formed(),
    ensures
        picker.cursor < MODEL_VIEWPORT_ROWS ==> picker.viewport_start() == 0,
        picker.cursor >= MODEL_VIEWPORT_ROWS ==> picker.viewport_end() == picker.cursor + 1
            || picker.viewport_end() == picker.models.len(),
        picker.models.len() >= MODEL_VIEWPORT_ROWS ==> picker.viewport_end()
            - picker.viewport_start() == MODEL_VIEWPORT_ROWS,
{
}

/// Where models have to be typed in, the reason is told: the provider's own fault, or that it
/// listed none.
pub proof fn listing_faults_are_told(error: Text, search: DiscoveryView)
    requires
        search.phase is First,
        !search.has_key,
    ensures
        search.step(ListingView::Failed(error)).1 == DiscoveryStepView::TypeIn(
            "Could not list models ("@ + error + "); enter them manually."@,
        ),
        search.step(ListingView::Models(seq![])).1 == DiscoveryStepView::TypeIn(
            "The provider listed no models; enter them manually."@,
        ),
{
}

} // verus!
