//! The per-variant chart style configuration: one table per compared
//! variant, keyed by sub-counter kind, of the color, legend label, line
//! width and point size that the external renderer draws with. Widths and
//! sizes are kept in tenths so the tables need no fractional number type;
//! the renderer divides by ten.

use vstd::prelude::*;

verus! {

/// Which sub-counter of a variant a series shows: the summed total, the
/// core cluster, or the atom cluster.
#[derive(Debug, Clone, Copy, PartialEq, Eq, Structural)]
pub enum Cpu {
    Total,
    Core,
    Atom,
}

/// The style table of the branching variant.
pub struct BranchingStyle;

/// The style table of the branchless variant.
pub struct BranchlessStyle;

impl BranchingStyle {
    /// The line and point color of one sub-counter series.
    pub fn color_cpu(cpu: Cpu) -> (r: &'static str)
        ensures
            r@ == match cpu {
                Cpu::Total => "#e59000"@,
                Cpu::Core => "#e5a73e"@,
                Cpu::Atom => "#e4ca9d"@,
            },
    {
        match cpu {
            Cpu::Total => "#e59000",
            Cpu::Core => "#e5a73e",
            Cpu::Atom => "#e4ca9d",
        }
    }

    /// The legend label of one sub-counter series.
    pub fn legend_cpu(cpu: Cpu) -> (r: &'static str)
        ensures
            r@ == match cpu {
                Cpu::Total => "Branching TOTAL"@,
                Cpu::Core => "Branching CORE"@,
                Cpu::Atom => "Branching ATOM"@,
            },
    {
        match cpu {
            Cpu::Total => "Branching TOTAL",
            Cpu::Core => "Branching CORE",
            Cpu::Atom => "Branching ATOM",
        }
    }

    /// The line width of one sub-counter series, in tenths.
    pub fn line_width_tenths_cpu(cpu: Cpu) -> (r: u32)
        ensures
            r == match cpu {
                Cpu::Total => 30int,
                Cpu::Core => 15int,
                Cpu::Atom => 10int,
            },
    {
        match cpu {
            Cpu::Total => 30,
            Cpu::Core => 15,
            Cpu::Atom => 10,
        }
    }

    /// The point size of one sub-counter series, in tenths.
    pub fn point_size_tenths_cpu(cpu: Cpu) -> (r: u32)
        ensures
            r == match cpu {
                Cpu::Total => 40int,
                Cpu::Core => 25int,
                Cpu::Atom => 20int,
            },
    {
        match cpu {
            Cpu::Total => 40,
            Cpu::Core => 25,
            Cpu::Atom => 20,
        }
    }

    /// The color of the branch-miss series.
    pub fn branch_misses_color() -> (r: &'static str)
        ensures
            r@ == "#d14419"@,
    {
        "#d14419"
    }
}

impl BranchlessStyle {
    /// The line and point color of one sub-counter series.
    pub fn color_cpu(cpu: Cpu) -> (r: &'static str)
        ensures
            r@ == match cpu {
                Cpu::Total => "#0369c5"@,
                Cpu::Core => "#1691ff"@,
                Cpu::Atom => "#88bae7"@,
            },
    {
        match cpu {
            Cpu::Total => "#0369c5",
            Cpu::Core => "#1691ff",
            Cpu::Atom => "#88bae7",
        }
    }

    /// The legend label of one sub-counter series.
    pub fn legend_cpu(cpu: Cpu) -> (r: &'static str)
        ensures
            r@ == match cpu {
                Cpu::Total => "Branchless TOTAL"@,
                Cpu::Core => "Branchless CORE"@,
                Cpu::Atom => "Branchless ATOM"@,
            },
    {
        match cpu {
            Cpu::Total => "Branchless TOTAL",
            Cpu::Core => "Branchless CORE",
            Cpu::Atom => "Branchless ATOM",
        }
    }

    /// The line width of one sub-counter series, in tenths.
    pub fn line_width_tenths_cpu(cpu: Cpu) -> (r: u32)
        ensures
            r == match cpu {
                Cpu::Total => 30int,
                Cpu::Core => 15int,
                Cpu::Atom => 10int,
            },
    {
        match cpu {
            Cpu::Total => 30,
            Cpu::Core => 15,
            Cpu::Atom => 10,
        }
    }

    /// The point size of one sub-counter series, in tenths.
    pub fn point_size_tenths_cpu(cpu: Cpu) -> (r: u32)
        ensures
            r == match cpu {
                Cpu::Total => 40int,
                Cpu::Core => 25int,
                Cpu::Atom => 20int,
            },
    {
        match cpu {
            Cpu::Total => 40,
            Cpu::Core => 25,
            Cpu::Atom => 20,
        }
    }

    /// The color of the branch-miss series.
    pub fn branch_misses_color() -> (r: &'static str)
        ensures
            r@ == "#5d00d1"@,
    {
        "#5d00d1"
    }
}

} // verus!
