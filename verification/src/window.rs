//! The main window: what it is made of, and when its page is put to sleep.

use vstd::prelude::*;
use crate::outside;
use crate::text;

verus! {

/// The material behind the window.
#[derive(Debug, Clone, Copy, PartialEq, Eq, Structural)]
pub enum Material {
    Acrylic,
    Mica,
    Plain,
}

/// The material that a setting names. A name nobody knows is no glass.
pub fn material(glass: &str) -> (r: Material)
    ensures
        r == (if glass@ == "acrylic-chrome"@ || glass@ == "acrylic-all"@ {
            Material::Acrylic
        } else if glass@ == "mica"@ {
            Material::Mica
        } else {
            Material::Plain
        }),
{
    if text::same(glass, "acrylic-chrome") || text::same(glass, "acrylic-all") {
        Material::Acrylic
    } else if text::same(glass, "mica") {
        Material::Mica
    } else {
        Material::Plain
    }
}

/// Whether the window lets what is behind it through.
pub fn is_transparent(glass: &str) -> (r: bool)
    ensures
        r == (glass@ != "none"@),
{
    !text::same(glass, "none")
}

/// The setting in force: the override, if one is set.
pub fn glass_setting(override_glass: Option<String>, setting: &str) -> (r: String)
    ensures
        r@ == (match override_glass {
            Some(g) => g@,
            None => setting@,
        }),
{
    match override_glass {
        Some(g) => g,
        None => setting.to_string(),
    }
}

/// What stands before the material's name in the window's first script.
pub const SCRIPT_HEAD: &'static str =
    "(function () {\n                var v = ";

/// What stands behind it: the name is put on the page as soon as there is one.
pub const SCRIPT_TAIL: &'static str =
    ";\n                function set() {\n                    if (document.documentElement) {\n                        document.documentElement.dataset.glass = v;\n                        return true;\n                    }\n                    return false;\n                }\n                if (!set()) {\n                    document.addEventListener('DOMContentLoaded', set);\n                }\n            })();";

/// The window's first script, which tells the page its material. The name is
/// escaped, never set in as it is.
pub fn first_script(glass: &str) -> (r: String)
    ensures
        r@ == SCRIPT_HEAD@ + outside::json_quoted(glass@) + SCRIPT_TAIL@,
        r@ == "(function () {\n                var v = "@ + outside::json_quoted(glass@)
            + ";\n                function set() {\n                    if (document.documentElement) {\n                        document.documentElement.dataset.glass = v;\n                        return true;\n                    }\n                    return false;\n                }\n                if (!set()) {\n                    document.addEventListener('DOMContentLoaded', set);\n                }\n            })();"@,
{
    let mut out = SCRIPT_HEAD.to_string();
    let name = outside::json_quote(glass);
    out.append(name.as_str());
    out.append(SCRIPT_TAIL);
    out
}

/// What a change of size asks of the page.
#[derive(Debug, Clone, Copy, PartialEq, Eq, Structural)]
pub enum PageStep {
    /// Put it to sleep.
    Suspend,
    /// Wake it, and show it what it has missed.
    Resume,
    Nothing,
}

/// Whether the page sleeps.
#[derive(Debug, Clone, Copy, PartialEq, Eq, Structural)]
pub struct PageGate {
    pub suspended: bool,
}

impl PageGate {
    /// The window was resized. A size of nothing means that it was minimised, if
    /// it says so itself; any other size means that it is back.
    pub fn on_resized(&mut self, width: u32, height: u32, is_minimized: bool) -> (r: PageStep)
        ensures
            ({
                let gone = width == 0 && height == 0;
                let sleeps = old(self).suspended;
                &&& r == (if gone && is_minimized && !sleeps {
                    PageStep::Suspend
                } else if !gone && sleeps {
                    PageStep::Resume
                } else {
                    PageStep::Nothing
                })
                &&& final(self).suspended == (if gone {
                    sleeps || is_minimized
                } else {
                    false
                })
            }),
    {
        if width == 0 && height == 0 {
            if is_minimized && !self.suspended {
                self.suspended = true;
                return PageStep::Suspend;
            }
            return PageStep::Nothing;
        }
        if self.suspended {
            self.suspended = false;
            return PageStep::Resume;
        }
        PageStep::Nothing
    }
}

/// A page is never put to sleep twice, nor woken when it does not sleep: each
/// step changes whether it sleeps.
pub proof fn lemma_page_steps_alternate(sleeps: bool, gone: bool, is_minimized: bool)
    ensures
        ({
            let after = if gone {
                sleeps || is_minimized
            } else {
                false
            };
            &&& gone && is_minimized && !sleeps ==> after
            &&& !gone && sleeps ==> !after
            &&& !(gone && is_minimized && !sleeps) && !(!gone && sleeps) ==> after == sleeps
        }),
{
}

} // verus!
