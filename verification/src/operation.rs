//! A single rename operation: how it reads, and how it is applied.

use crate::error::{ApplyError, ApplyErrorDetails, ApplyErrorView, IoFailure};
use crate::fsutil::{
    common_ancestor, exists_after, parent, path_exists, path_parent, path_strip_prefix,
    shared_ancestor, strip_prefix,
};
use vstd::prelude::*;
use vstd::string::StringExecFns;

verus! {

/// What a rename operation is: the path to move, and the path to move it to.
pub struct RenameView {
    pub source: Seq<char>,
    pub target: Seq<char>,
}

/// A rename operation.
#[derive(Debug, Clone, PartialEq, Eq)]
pub struct Rename {
    pub source: String,
    pub target: String,
}

impl View for Rename {
    type V = RenameView;

    open spec fn view(&self) -> RenameView {
        RenameView { source: self.source@, target: self.target@ }
    }
}

/// The operations of a sequence, each as what it is.
pub open spec fn views(renames: Seq<Rename>) -> Seq<RenameView> {
    renames.map_values(|rename: Rename| rename@)
}

/// What a [`Style`] is.
pub struct StyleView {
    pub prefix: Seq<char>,
    pub suffix: Seq<char>,
}

/// How a path is set off on a terminal: what is written before it and what
/// after it.
#[derive(Debug, Clone, PartialEq, Eq)]
pub struct Style {
    pub prefix: String,
    pub suffix: String,
}

impl View for Style {
    type V = StyleView;

    open spec fn view(&self) -> StyleView {
        StyleView { prefix: self.prefix@, suffix: self.suffix@ }
    }
}

impl Style {
    /// The style that writes nothing around a path.
    pub fn plain() -> (style: Style)
        ensures
            style@ == (StyleView { prefix: Seq::empty(), suffix: Seq::empty() }),
    {
        Style { prefix: String::new(), suffix: String::new() }
    }

    /// Appends `text` in this style.
    pub fn write_to(&self, text: &str, out: &mut String)
        ensures
            final(out)@ == old(out)@ + styled(text@, self@),
    {
        out.append(self.prefix.as_str());
        out.append(text);
        out.append(self.suffix.as_str());
        assert(out@ =~= old(out)@ + styled(text@, self@));
    }
}

/// A text with a style's prefix before it and its suffix behind it.
pub open spec fn styled(text: Seq<char>, style: StyleView) -> Seq<char> {
    style.prefix + text + style.suffix
}

/// What a [`Grouping`] is.
pub struct GroupingView {
    pub common: Seq<char>,
    pub source: Seq<char>,
    pub target: Seq<char>,
}

/// The two paths of an operation, parted into the directory they share and
/// what each has below it.
#[derive(Debug, Clone, Copy, PartialEq, Eq)]
pub struct Grouping<'a> {
    /// The directory that both paths lie in.
    pub common: &'a str,
    /// The source below it.
    pub source: &'a str,
    /// The target below it.
    pub target: &'a str,
}

impl View for Grouping<'_> {
    type V = GroupingView;

    open spec fn view(&self) -> GroupingView {
        GroupingView { common: self.common@, source: self.source@, target: self.target@ }
    }
}

/// The grouping of an operation's paths: they share an ancestor, this is no
/// root, and both paths can be cut off behind it.
pub open spec fn grouping_of(rename: RenameView) -> Option<GroupingView> {
    match shared_ancestor(rename.source, rename.target) {
        Some(common) => match (
            path_parent(common),
            path_strip_prefix(rename.source, common),
            path_strip_prefix(rename.target, common),
        ) {
            (Some(_), Some(source), Some(target)) => Some(GroupingView { common, source, target }),
            _ => None,
        },
        None => None,
    }
}

/// The grouped form: `<common>/{<source> => <target>}`.
pub open spec fn grouped_text(grouping: GroupingView) -> Seq<char> {
    grouping.common + "/{"@ + grouping.source + " => "@ + grouping.target + "}"@
}

/// The grouped form in colors. The separator behind the common directory
/// belongs to that directory.
pub open spec fn grouped_colored_text(
    grouping: GroupingView,
    source_style: StyleView,
    target_style: StyleView,
    common_style: StyleView,
) -> Seq<char> {
    common_style.prefix + grouping.common + "/"@ + common_style.suffix + "{"@ + styled(
        grouping.source,
        source_style,
    ) + " => "@ + styled(grouping.target, target_style) + "}"@
}

/// The ungrouped form: `<source> => <target>`.
pub open spec fn ungrouped_text(rename: RenameView) -> Seq<char> {
    rename.source + " => "@ + rename.target
}

/// The ungrouped form in colors.
pub open spec fn ungrouped_colored_text(
    rename: RenameView,
    source_style: StyleView,
    target_style: StyleView,
) -> Seq<char> {
    styled(rename.source, source_style) + " => "@ + styled(rename.target, target_style)
}

/// How an operation reads: grouped where its paths have a grouping,
/// ungrouped where they have none.
pub open spec fn rename_text(rename: RenameView) -> Seq<char> {
    match grouping_of(rename) {
        Some(grouping) => grouped_text(grouping),
        None => ungrouped_text(rename),
    }
}

/// How an operation reads in colors.
pub open spec fn rename_colored_text(
    rename: RenameView,
    source_style: StyleView,
    target_style: StyleView,
    common_style: StyleView,
) -> Seq<char> {
    match grouping_of(rename) {
        Some(grouping) => grouped_colored_text(grouping, source_style, target_style, common_style),
        None => ungrouped_colored_text(rename, source_style, target_style),
    }
}

/// How far the work on one operation has come: what is to be done next.
#[derive(Debug, Clone, Copy, PartialEq, Eq)]
pub enum Stage {
    /// Find out whether the target is there already.
    CheckTarget,
    /// Find out whether the directory of the target is there.
    CheckParent,
    /// Create the directory of the target.
    CreateParent,
    /// Move the source to the target.
    Move,
}

/// What an [`Action`] is.
pub enum ActionView {
    LookUpTarget { target: Seq<char> },
    LookUpParent { parent: Seq<char> },
    CreateParent { parent: Seq<char> },
    Move { source: Seq<char>, target: Seq<char> },
}

/// A request to the file system, made on behalf of an operation.
#[derive(Debug, Clone, PartialEq, Eq)]
pub enum Action {
    /// Look up the metadata of `target`, without following a symbolic link
    /// at its end. Answered by [`Event::LookedUp`].
    LookUpTarget { target: String },
    /// Find out whether the directory `parent` exists. Answered by
    /// [`Event::Exists`].
    LookUpParent { parent: String },
    /// Create the directory `parent` and every ancestor of it that is
    /// missing. Answered by [`Event::Changed`].
    CreateParent { parent: String },
    /// Rename `source` to `target`. Answered by [`Event::Changed`].
    Move { source: String, target: String },
}

impl View for Action {
    type V = ActionView;

    open spec fn view(&self) -> ActionView {
        match self {
            Action::LookUpTarget { target } => ActionView::LookUpTarget { target: target@ },
            Action::LookUpParent { parent } => ActionView::LookUpParent { parent: parent@ },
            Action::CreateParent { parent } => ActionView::CreateParent { parent: parent@ },
            Action::Move { source, target } => ActionView::Move {
                source: source@,
                target: target@,
            },
        }
    }
}

/// What the file system answered to an [`Action`].
#[derive(Debug)]
pub enum Event {
    /// What the lookup of the target came to.
    LookedUp(Result<(), IoFailure>),
    /// Whether the directory exists.
    Exists(bool),
    /// What the change came to.
    Changed(Result<(), IoFailure>),
}

/// What a [`Step`] is.
pub enum StepView {
    Next(Stage),
    Applied,
    Failed(ApplyErrorView),
}

/// Where an answer of the file system leaves an operation.
#[derive(Debug)]
pub enum Step {
    /// There is more to do, at this stage.
    Next(Stage),
    /// The operation is applied.
    Applied,
    /// The operation has failed; it is given up.
    Failed(ApplyError),
}

impl View for Step {
    type V = StepView;

    open spec fn view(&self) -> StepView {
        match self {
            Step::Next(stage) => StepView::Next(*stage),
            Step::Applied => StepView::Applied,
            Step::Failed(error) => StepView::Failed(error@),
        }
    }
}

/// The request that an operation makes at a stage. There is none at the
/// stages that concern the directory of the target where the target has
/// none.
pub open spec fn action_of(rename: RenameView, stage: Stage) -> Option<ActionView> {
    match stage {
        Stage::CheckTarget => Some(ActionView::LookUpTarget { target: rename.target }),
        Stage::CheckParent => match path_parent(rename.target) {
            Some(parent) => Some(ActionView::LookUpParent { parent }),
            None => None,
        },
        Stage::CreateParent => match path_parent(rename.target) {
            Some(parent) => Some(ActionView::CreateParent { parent }),
            None => None,
        },
        Stage::Move => Some(
            ActionView::Move { source: rename.source, target: rename.target },
        ),
    }
}

/// That an operation failed, and how.
pub open spec fn failed(rename: RenameView, details: ApplyErrorDetails) -> StepView {
    StepView::Failed(ApplyErrorView { source: rename.source, target: rename.target, details })
}

/// Where an answer leaves an operation that stands at a stage; `None` where
/// the answer is none to the request of that stage.
///
/// A target that is there already, or that cannot be looked up, fails the
/// operation before anything is changed. The directory of the target is
/// created where it is missing. A change that the file system refuses fails
/// the operation.
pub open spec fn step_of(rename: RenameView, stage: Stage, event: Event) -> Option<StepView> {
    match (stage, event) {
        (Stage::CheckTarget, Event::LookedUp(lookup)) => Some(
            match exists_after(lookup) {
                Err(failure) => failed(rename, ApplyErrorDetails::Io(failure)),
                Ok(true) => failed(rename, ApplyErrorDetails::TargetExists),
                Ok(false) => if path_parent(rename.target) is Some {
                    StepView::Next(Stage::CheckParent)
                } else {
                    StepView::Next(Stage::Move)
                },
            },
        ),
        (Stage::CheckParent, Event::Exists(exists)) => Some(
            if exists {
                StepView::Next(Stage::Move)
            } else {
                StepView::Next(Stage::CreateParent)
            },
        ),
        (Stage::CreateParent, Event::Changed(outcome)) => Some(
            match outcome {
                Ok(_) => StepView::Next(Stage::Move),
                Err(failure) => failed(rename, ApplyErrorDetails::Io(failure)),
            },
        ),
        (Stage::Move, Event::Changed(outcome)) => Some(
            match outcome {
                Ok(_) => StepView::Applied,
                Err(failure) => failed(rename, ApplyErrorDetails::Io(failure)),
            },
        ),
        _ => None,
    }
}

impl<'a> Grouping<'a> {
    /// Appends the grouped form.
    pub fn write_to(&self, out: &mut String)
        ensures
            final(out)@ == old(out)@ + grouped_text(self@),
    {
        out.append(self.common);
        out.append("/{");
        out.append(self.source);
        out.append(" => ");
        out.append(self.target);
        out.append("}");
        assert(out@ =~= old(out)@ + grouped_text(self@));
    }

    /// Appends the grouped form in colors.
    pub fn write_colored_to(
        &self,
        source_style: &Style,
        target_style: &Style,
        common_style: &Style,
        out: &mut String,
    )
        ensures
            final(out)@ == old(out)@ + grouped_colored_text(
                self@,
                source_style@,
                target_style@,
                common_style@,
            ),
    {
        out.append(common_style.prefix.as_str());
        out.append(self.common);
        out.append("/");
        out.append(common_style.suffix.as_str());
        out.append("{");
        source_style.write_to(self.source, out);
        out.append(" => ");
        target_style.write_to(self.target, out);
        out.append("}");
        assert(out@ =~= old(out)@ + grouped_colored_text(
            self@,
            source_style@,
            target_style@,
            common_style@,
        ));
    }
}

impl Rename {
    /// Creates a new rename operation.
    pub fn new(source: String, target: String) -> (rename: Self)
        ensures
            rename@ == (RenameView { source: source@, target: target@ }),
    {
        Self { source, target }
    }

    /// The request to make at a stage.
    pub fn action(&self, stage: Stage) -> (action: Option<Action>)
        ensures
            match action {
                Some(request) => action_of(self@, stage) == Some(request@),
                None => action_of(self@, stage) is None,
            },
    {
        match stage {
            Stage::CheckTarget => Some(Action::LookUpTarget { target: self.target.clone() }),
            Stage::CheckParent => match parent(self.target.as_str()) {
                Some(up) => Some(Action::LookUpParent { parent: up.to_owned() }),
                None => None,
            },
            Stage::CreateParent => match parent(self.target.as_str()) {
                Some(up) => Some(Action::CreateParent { parent: up.to_owned() }),
                None => None,
            },
            Stage::Move => Some(
                Action::Move { source: self.source.clone(), target: self.target.clone() },
            ),
        }
    }

    /// Takes the operation one step on: from the stage it stands at and the
    /// answer to the request of that stage, to where it stands then.
    pub fn apply(&self, stage: Stage, event: Event) -> (step: Option<Step>)
        ensures
            match step {
                Some(taken) => step_of(self@, stage, event) == Some(taken@),
                None => step_of(self@, stage, event) is None,
            },
    {
        let source = self.source.as_str();
        let target = self.target.as_str();
        match (stage, event) {
            (Stage::CheckTarget, Event::LookedUp(lookup)) => Some(
                match path_exists(lookup) {
                    Err(failure) => Step::Failed(ApplyError::from_io(source, target, failure)),
                    Ok(true) => Step::Failed(ApplyError::target_exists(source, target)),
                    Ok(false) => if parent(target).is_some() {
                        Step::Next(Stage::CheckParent)
                    } else {
                        Step::Next(Stage::Move)
                    },
                },
            ),
            (Stage::CheckParent, Event::Exists(exists)) => Some(
                if exists {
                    Step::Next(Stage::Move)
                } else {
                    Step::Next(Stage::CreateParent)
                },
            ),
            (Stage::CreateParent, Event::Changed(outcome)) => Some(
                match outcome {
                    Ok(_) => Step::Next(Stage::Move),
                    Err(failure) => Step::Failed(ApplyError::from_io(source, target, failure)),
                },
            ),
            (Stage::Move, Event::Changed(outcome)) => Some(
                match outcome {
                    Ok(_) => Step::Applied,
                    Err(failure) => Step::Failed(ApplyError::from_io(source, target, failure)),
                },
            ),
            _ => None,
        }
    }

    /// The grouping of the two paths, where they have one.
    pub fn grouping(&self) -> (grouping: Option<Grouping<'_>>)
        ensures
            match grouping {
                Some(found) => grouping_of(self@) == Some(found@),
                None => grouping_of(self@) is None,
            },
    {
        let source = self.source.as_str();
        let target = self.target.as_str();
        match common_ancestor(source, target) {
            Some(common) => match (
                parent(common),
                strip_prefix(source, common),
                strip_prefix(target, common),
            ) {
                (Some(_), Some(source), Some(target)) => Some(Grouping { common, source, target }),
                _ => None,
            },
            None => None,
        }
    }

    /// How the operation reads, on one line.
    pub fn text(&self) -> (text: String)
        ensures
            text@ == rename_text(self@),
    {
        let mut text = String::new();
        match self.grouping() {
            Some(grouping) => {
                grouping.write_to(&mut text);
            },
            None => {
                text.append(self.source.as_str());
                text.append(" => ");
                text.append(self.target.as_str());
            },
        }
        assert(text@ =~= rename_text(self@));
        text
    }

    /// Appends the operation as a line of its own.
    pub fn write_to(&self, out: &mut String)
        ensures
            final(out)@ == old(out)@ + rename_text(self@) + "\n"@,
    {
        out.append(self.text().as_str());
        out.append("\n");
    }

    /// Appends the operation in colors, as a line of its own. The style of
    /// the common directory is used in the grouped form only.
    pub fn write_colored_to(
        &self,
        source_style: &Style,
        target_style: &Style,
        common_style: &Style,
        out: &mut String,
    )
        ensures
            final(out)@ == old(out)@ + rename_colored_text(
                self@,
                source_style@,
                target_style@,
                common_style@,
            ) + "\n"@,
    {
        let ghost before = out@;
        match self.grouping() {
            Some(grouping) => {
                grouping.write_colored_to(source_style, target_style, common_style, out);
            },
            None => {
                source_style.write_to(self.source.as_str(), out);
                out.append(" => ");
                target_style.write_to(self.target.as_str(), out);
                assert(out@ =~= before + ungrouped_colored_text(
                    self@,
                    source_style@,
                    target_style@,
                ));
            },
        }
        out.append("\n");
    }
}

} // verus!
