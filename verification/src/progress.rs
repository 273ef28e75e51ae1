//! Bookkeeping of the build-progress plugin: how many modules the current
//! build has handled, whether the first build is still running, and what
//! each compiler hook does to the progress bar.
//!
//! The bar itself is drawn by the caller; each hook here returns the
//! `ProgressAction` that the caller performs on it.
use crate::text::{concat_text, decimal, decimal_text};
use vstd::prelude::*;

verus! {

/// What a progress message reports.
#[derive(PartialEq, Eq, Structural, Debug, Clone, Copy)]
pub enum MessageKind {
    /// `transform (<count>) <module>`
    Transform,
    /// `load cached module(<count>) <module>`
    LoadCachedModule,
    /// `render <resource pot>`
    Render,
}

/// What the caller does to the progress bar after a hook.
#[derive(Debug)]
pub enum ProgressAction {
    /// Leave the bar as it is.
    Nothing,
    /// Reset the bar.
    Reset,
    /// Set the bar's message to `message`, the text of `kind` with `count`
    /// and `name`, then advance the bar by one step.
    Advance { kind: MessageKind, count: u32, name: String, message: String },
    /// Finish the bar and clear it from the terminal.
    FinishAndClear,
}

/// The text of a progress message of kind `kind` for `count` and `name`.
pub open spec fn message_text(kind: MessageKind, count: nat, name: Seq<char>) -> Seq<char> {
    match kind {
        MessageKind::Transform => "transform ("@ + decimal(count) + ") "@ + name,
        MessageKind::LoadCachedModule => "load cached module("@ + decimal(count) + ") "@ + name,
        MessageKind::Render => "render "@ + name,
    }
}

/// Builds the text of a progress message of kind `kind` for `count` and
/// `name`.
pub fn message_for(kind: MessageKind, count: u32, name: &str) -> (r: String)
    ensures
        r@ == message_text(kind, count as nat, name@),
{
    match kind {
        MessageKind::Transform => {
            let digits = decimal_text(count);
            let head = concat_text("transform (", digits.as_str());
            let head = concat_text(head.as_str(), ") ");
            let r = concat_text(head.as_str(), name);
            proof {
                reveal_strlit("transform (");
                reveal_strlit(") ");
                assert(r@ =~= message_text(kind, count as nat, name@));
            }
            r
        },
        MessageKind::LoadCachedModule => {
            let digits = decimal_text(count);
            let head = concat_text("load cached module(", digits.as_str());
            let head = concat_text(head.as_str(), ") ");
            let r = concat_text(head.as_str(), name);
            proof {
                reveal_strlit("load cached module(");
                reveal_strlit(") ");
                assert(r@ =~= message_text(kind, count as nat, name@));
            }
            r
        },
        MessageKind::Render => {
            let r = concat_text("render ", name);
            proof {
                reveal_strlit("render ");
            }
            r
        },
    }
}

/// The state of the progress plugin.
pub struct FarmPluginProgress {
    module_count: u32,
    first_build: bool,
}

/// The mathematical view of the plugin's state.
pub struct ProgressV {
    pub module_count: nat,
    pub first_build: bool,
}

/// The state after one more module is counted.
pub open spec fn incremented(v: ProgressV) -> ProgressV {
    ProgressV { module_count: v.module_count + 1, first_build: v.first_build }
}

/// The state after `k` more modules are counted one by one.
pub open spec fn increments(v: ProgressV, k: nat) -> ProgressV
    decreases k,
{
    if k == 0 {
        v
    } else {
        incremented(increments(v, (k - 1) as nat))
    }
}

/// Counting `k` modules one by one adds `k` to the count and leaves the
/// first-build flag as it was: no count is lost.
pub proof fn lemma_increments_add_up(v: ProgressV, k: nat)
    ensures
        increments(v, k) == (ProgressV { module_count: v.module_count + k, first_build: v.first_build }),
    decreases k,
{
    if k > 0 {
        lemma_increments_add_up(v, (k - 1) as nat);
    }
}

impl View for FarmPluginProgress {
    type V = ProgressV;

    closed spec fn view(&self) -> ProgressV {
        ProgressV { module_count: self.module_count as nat, first_build: self.first_build }
    }
}

impl FarmPluginProgress {
    /// A fresh plugin: no module counted, first build ahead.
    pub fn new() -> (r: Self)
        ensures
            r@ == (ProgressV { module_count: 0, first_build: true }),
    {
        FarmPluginProgress { module_count: 0, first_build: true }
    }

    /// The plugin's name.
    pub fn name(&self) -> (r: &'static str)
        ensures
            r@ == "FarmPluginProgress"@,
    {
        "FarmPluginProgress"
    }

    /// Counts one more module.
    pub fn increment_module_count(&mut self)
        requires
            old(self)@.module_count < u32::MAX,
        ensures
            final(self)@ == incremented(old(self)@),
    {
        self.module_count = self.module_count + 1;
    }

    /// Sets the module count back to zero.
    pub fn reset_module_count(&mut self)
        ensures
            final(self)@ == (ProgressV { module_count: 0, first_build: old(self)@.first_build }),
    {
        self.module_count = 0;
    }

    /// The number of modules counted.
    pub fn get_module_count(&self) -> (r: u32)
        ensures
            r as nat == self@.module_count,
    {
        self.module_count
    }

    /// Whether the first build is still running.
    pub fn is_first_build(&self) -> (r: bool)
        ensures
            r == self@.first_build,
    {
        self.first_build
    }

    /// Hook: modules were updated. The bar is reset and the count starts
    /// over.
    pub fn update_modules(&mut self) -> (r: ProgressAction)
        ensures
            r is Reset,
            final(self)@ == (ProgressV { module_count: 0, first_build: old(self)@.first_build }),
    {
        self.reset_module_count();
        ProgressAction::Reset
    }

    /// Hook: a build starts. The count starts over.
    pub fn build_start(&mut self) -> (r: ProgressAction)
        ensures
            r is Nothing,
            final(self)@ == (ProgressV { module_count: 0, first_build: old(self)@.first_build }),
    {
        self.reset_module_count();
        ProgressAction::Nothing
    }

    /// Hook: module `module_id` is transformed. It is counted and the bar
    /// reports it with the new count.
    pub fn transform(&mut self, module_id: &str) -> (r: ProgressAction)
        requires
            old(self)@.module_count < u32::MAX,
        ensures
            final(self)@ == (ProgressV {
                module_count: old(self)@.module_count + 1,
                first_build: old(self)@.first_build,
            }),
            r matches ProgressAction::Advance { kind, count, name, message } && kind
                == MessageKind::Transform && count as nat == final(self)@.module_count && name@
                == module_id@ && message@ == message_text(kind, count as nat, name@),
    {
        self.advance(MessageKind::Transform, module_id)
    }

    /// Hook: module `module_id` is taken from the persistent cache. It is
    /// counted and the bar reports it with the new count.
    pub fn handle_persistent_cached_module(&mut self, module_id: &str) -> (r: ProgressAction)
        requires
            old(self)@.module_count < u32::MAX,
        ensures
            final(self)@ == (ProgressV {
                module_count: old(self)@.module_count + 1,
                first_build: old(self)@.first_build,
            }),
            r matches ProgressAction::Advance { kind, count, name, message } && kind
                == MessageKind::LoadCachedModule && count as nat == final(self)@.module_count
                && name@ == module_id@ && message@ == message_text(kind, count as nat, name@),
    {
        self.advance(MessageKind::LoadCachedModule, module_id)
    }

    fn advance(&mut self, kind: MessageKind, module_id: &str) -> (r: ProgressAction)
        requires
            old(self)@.module_count < u32::MAX,
        ensures
            final(self)@ == (ProgressV {
                module_count: old(self)@.module_count + 1,
                first_build: old(self)@.first_build,
            }),
            r matches ProgressAction::Advance { kind: k, count, name, message } && k == kind
                && count as nat == final(self)@.module_count && name@ == module_id@ && message@
                == message_text(kind, count as nat, name@),
    {
        self.increment_module_count();
        let count = self.get_module_count();
        let message = message_for(kind, count, module_id);
        ProgressAction::Advance {
            kind,
            count,
            name: <String as vstd::string::StringExecFns>::from_str(module_id),
            message,
        }
    }

    /// Hook: the module graph was updated. After the first build the bar
    /// is finished and cleared.
    pub fn module_graph_updated(&self) -> (r: ProgressAction)
        ensures
            if self@.first_build {
                r is Nothing
            } else {
                r is FinishAndClear
            },
    {
        if !self.first_build {
            ProgressAction::FinishAndClear
        } else {
            ProgressAction::Nothing
        }
    }

    /// Hook: resource pot `name` is rendered. During the first build the
    /// bar reports it; the count does not change.
    pub fn render_resource_pot(&self, name: &str) -> (r: ProgressAction)
        ensures
            if self@.first_build {
                r matches ProgressAction::Advance { kind, count, name: n, message } && kind
                    == MessageKind::Render && count as nat == self@.module_count && n@ == name@
                    && message@ == message_text(kind, count as nat, name@)
            } else {
                r is Nothing
            },
    {
        if self.first_build {
            ProgressAction::Advance {
                kind: MessageKind::Render,
                count: self.module_count,
                name: <String as vstd::string::StringExecFns>::from_str(name),
                message: message_for(MessageKind::Render, self.module_count, name),
            }
        } else {
            ProgressAction::Nothing
        }
    }

    /// Hook: generation ended. At the end of the first build the bar is
    /// finished and cleared, and the first build is over.
    pub fn generate_end(&mut self) -> (r: ProgressAction)
        ensures
            final(self)@ == (ProgressV { module_count: old(self)@.module_count, first_build: false }),
            if old(self)@.first_build {
                r is FinishAndClear
            } else {
                r is Nothing
            },
    {
        if self.first_build {
            self.first_build = false;
            ProgressAction::FinishAndClear
        } else {
            ProgressAction::Nothing
        }
    }
}

} // verus!
