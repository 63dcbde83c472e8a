//! The icon build plan: the metadata that names an icon file, its render
//! targets and the variables drawn from it, and the registry of generated
//! outputs with duplicate detection.
//!
//! Rendering itself (SVG parsing, rasterising, encoding) happens outside;
//! this module holds the plan data and decides where each output goes and
//! that no output name is produced twice.

use vstd::prelude::*;
use vstd::string::StringExecFns;

verus! {

/// The icon description: the icon file, the available targets, and the
/// variables to extract, each under its name. Names are unique.
pub struct IconMetadata {
    /// The path of the icon file.
    pub file: String,
    /// The available targets for this icon.
    pub targets: Vec<IconTarget>,
    /// The variables to extract, by name.
    pub variables: Vec<(String, IconVariable)>,
}

/// A variable extracted from the icon.
pub enum IconVariable {
    /// A variable extracted from a fill paint.
    FillPaint(FillPaintVariable),
}

/// A variable extracted from the fill paint of one element.
pub struct FillPaintVariable {
    /// The id of the element to extract the fill paint from.
    pub from: String,
}

/// One render target of the icon.
pub struct IconTarget {
    /// The name of the target.
    pub name: String,
    /// The type of the target.
    pub target_type: IconTargetType,
}

/// The type of a render target.
pub enum IconTargetType {
    /// A PNG image.
    Png(PngTarget),
    /// A Windows icon.
    Ico(IcoTarget),
    /// A target type this processor does not handle.
    Other,
}

/// A PNG render target.
pub struct PngTarget {
    /// The width of the image.
    pub width: u32,
    /// The height of the image.
    pub height: u32,
    /// Where the icon is placed in the image.
    pub placement: PngTargetPlacement,
    /// Additional draw steps around the icon.
    pub draw_steps: DrawSteps,
}

/// The placement of the icon inside a PNG target.
pub struct PngTargetPlacement {
    /// The left edge of the icon.
    pub x: i32,
    /// The top edge of the icon.
    pub y: i32,
    /// The rendered width; the image width when absent.
    pub width: Option<u32>,
    /// The rendered height; the image height when absent.
    pub height: Option<u32>,
}

impl PngTargetPlacement {
    /// The width and height the icon is rendered at: the placement's own,
    /// falling back to the image size.
    pub fn render_size(&self, image_width: u32, image_height: u32) -> (r: (u32, u32))
        ensures
            r.0 == (match self.width {
                Some(w) => w,
                None => image_width,
            }),
            r.1 == (match self.height {
                Some(h) => h,
                None => image_height,
            }),
    {
        let w = match self.width {
            Some(w) => w,
            None => image_width,
        };
        let h = match self.height {
            Some(h) => h,
            None => image_height,
        };
        (w, h)
    }
}

/// A Windows icon target.
pub struct IcoTarget {
    /// The square sizes to include in the icon file.
    pub sizes: Vec<u32>,
}

/// The draw steps around the icon of a PNG target.
pub struct DrawSteps {
    /// Steps drawn before the icon.
    pub before: Vec<DrawStep>,
    /// Steps drawn after the icon.
    pub after: Vec<DrawStep>,
}

/// One draw step.
pub enum DrawStep {
    /// Draw a rectangle.
    Rect(DrawRectStep),
}

/// A rectangle draw step.
pub struct DrawRectStep {
    /// The left edge of the rectangle.
    pub x: u32,
    /// The top edge of the rectangle.
    pub y: u32,
    /// The width of the rectangle.
    pub width: u32,
    /// The height of the rectangle.
    pub height: u32,
    /// The paint the rectangle is filled with.
    pub fill: InputUsage,
}

/// An input reference in a draw step.
pub enum InputUsage {
    /// Use an extracted variable as input.
    Variable { from: String },
}

/// The type of an extracted variable.
pub enum VariableType {
    /// A paint variable.
    Paint,
}

/// What went wrong while planning icon outputs.
#[derive(Debug, Clone, Copy, PartialEq, Eq, Structural)]
pub enum IconProcessorError {
    /// An output with this name was already generated.
    DuplicatedOutput,
    /// No output with this name was generated.
    OutputNotFound,
    /// No target with this name exists in the icon description.
    TargetNotFound,
    /// The named target has a type this processor does not handle.
    UnsupportedTarget,
}

/// The index of the first target with the given name, front to back.
pub open spec fn spec_target_index(targets: Seq<IconTarget>, name: Seq<char>) -> Option<int>
    decreases targets.len(),
{
    if targets.len() == 0 {
        None
    } else if targets[0].name@ == name {
        Some(0int)
    } else {
        match spec_target_index(targets.drop_first(), name) {
            None => None,
            Some(i) => Some(i + 1),
        }
    }
}

impl IconMetadata {
    /// Finds the render target to process: the first target with the given
    /// name; a name that no target carries is an error.
    pub fn find_target(&self, name: &String) -> (r: Result<&IconTarget, IconProcessorError>)
        ensures
            match spec_target_index(self.targets@, name@) {
                Some(i) => r is Ok && *r->Ok_0 == self.targets@[i],
                None => r == Result::<&IconTarget, IconProcessorError>::Err(
                    IconProcessorError::TargetNotFound,
                ),
            },
    {
        proof {
            assert(self.targets@.skip(0int) =~= self.targets@);
        }
        let mut i: usize = 0;
        while i < self.targets.len()
            invariant
                0 <= i <= self.targets@.len(),
                spec_target_index(self.targets@, name@) == (match spec_target_index(
                    self.targets@.skip(i as int),
                    name@,
                ) {
                    None => None::<int>,
                    Some(j) => Some(j + i),
                }),
            decreases self.targets@.len() - i,
        {
            proof {
                assert(self.targets@.skip(i as int)[0] == self.targets@[i as int]);
                assert(self.targets@.skip(i as int).drop_first() =~= self.targets@.skip(i + 1));
            }
            if self.targets[i].name == *name {
                return Ok(&self.targets[i]);
            }
            i += 1;
        }
        Err(IconProcessorError::TargetNotFound)
    }
}

/// The path registered under a name, front to back.
pub open spec fn spec_output_lookup(outputs: Seq<(String, String)>, name: Seq<char>) -> Option<
    Seq<char>,
>
    decreases outputs.len(),
{
    if outputs.len() == 0 {
        None
    } else if outputs[0].0@ == name {
        Some(outputs[0].1@)
    } else {
        spec_output_lookup(outputs.drop_first(), name)
    }
}

fn output_lookup(outputs: &Vec<(String, String)>, name: &String) -> (r: Option<String>)
    ensures
        match r {
            Some(p) => spec_output_lookup(outputs@, name@) == Some(p@),
            None => spec_output_lookup(outputs@, name@) is None,
        },
{
    proof {
        assert(outputs@.skip(0int) =~= outputs@);
    }
    let mut i: usize = 0;
    while i < outputs.len()
        invariant
            0 <= i <= outputs@.len(),
            spec_output_lookup(outputs@, name@) == spec_output_lookup(
                outputs@.skip(i as int),
                name@,
            ),
        decreases outputs@.len() - i,
    {
        proof {
            assert(outputs@.skip(i as int)[0] == outputs@[i as int]);
            assert(outputs@.skip(i as int).drop_first() =~= outputs@.skip(i + 1));
        }
        if outputs[i].0 == *name {
            let p = outputs[i].1.clone();
            return Some(p);
        }
        i += 1;
    }
    None
}

/// Joins a directory and a child path with a separator.
pub fn join_path(dir: &String, child: &str) -> (r: String)
    ensures
        r@ == dir@ + "/"@ + child@,
{
    let mut out = dir.clone();
    out.append("/");
    out.append(child);
    out
}

/// The registry of outputs generated for one target: each output name maps
/// to the path it was written to, and no name is generated twice.
pub struct OutputGenerator {
    target_dir: String,
    generated_outputs: Vec<(String, String)>,
}

impl View for OutputGenerator {
    type V = Seq<(String, String)>;

    closed spec fn view(&self) -> Seq<(String, String)> {
        self.generated_outputs@
    }
}

impl OutputGenerator {
    /// The directory this generator writes into.
    pub closed spec fn spec_target_dir(&self) -> Seq<char> {
        self.target_dir@
    }

    /// A generator for one target: its outputs go into the target's own
    /// directory under the build directory, and nothing is generated yet.
    pub fn new(build_dir: &String, target: &IconTarget) -> (r: Self)
        ensures
            r.spec_target_dir() == build_dir@ + "/"@ + target.name@,
            r@ == Seq::<(String, String)>::empty(),
    {
        let target_dir = join_path(build_dir, target.name.as_str());
        let r = OutputGenerator { target_dir, generated_outputs: Vec::new() };
        proof {
            assert(r@ =~= Seq::<(String, String)>::empty());
        }
        r
    }

    /// Registers an output file for this target and decides its path. A
    /// name that was already generated is refused and changes nothing.
    pub fn register_output(&mut self, name: String, child_path: &str) -> (r: Result<
        String,
        IconProcessorError,
    >)
        ensures
            final(self).spec_target_dir() == old(self).spec_target_dir(),
            spec_output_lookup(old(self)@, name@) is Some ==> r == Result::<
                String,
                IconProcessorError,
            >::Err(IconProcessorError::DuplicatedOutput) && final(self)@ == old(self)@,
            spec_output_lookup(old(self)@, name@) is None ==> r is Ok && r->Ok_0@ == old(
                self,
            ).spec_target_dir() + "/"@ + child_path@ && final(self)@ == old(self)@.push(
                (name, r->Ok_0),
            ),
    {
        match output_lookup(&self.generated_outputs, &name) {
            Some(_) => Err(IconProcessorError::DuplicatedOutput),
            None => {
                let path = join_path(&self.target_dir, child_path);
                let result = path.clone();
                self.generated_outputs.push((name, path));
                Ok(result)
            },
        }
    }

    /// Finalizes the generator and hands over the outputs.
    pub fn finalize(self) -> (r: BuildOutputs)
        ensures
            r@ == self@,
    {
        BuildOutputs { generated_outputs: self.generated_outputs }
    }
}

/// The outputs generated for one target, by name.
pub struct BuildOutputs {
    generated_outputs: Vec<(String, String)>,
}

impl View for BuildOutputs {
    type V = Seq<(String, String)>;

    closed spec fn view(&self) -> Seq<(String, String)> {
        self.generated_outputs@
    }
}

impl BuildOutputs {
    /// Gets the path an output was generated at.
    pub fn get_output(&self, name: &String) -> (r: Result<String, IconProcessorError>)
        ensures
            match spec_output_lookup(self@, name@) {
                Some(p) => r is Ok && r->Ok_0@ == p,
                None => r == Result::<String, IconProcessorError>::Err(
                    IconProcessorError::OutputNotFound,
                ),
            },
    {
        match output_lookup(&self.generated_outputs, name) {
            Some(p) => Ok(p),
            None => Err(IconProcessorError::OutputNotFound),
        }
    }
}

} // verus!
