//! The kernels of the device program: their names and their parameter lists.

use vstd::prelude::*;

verus! {

/// The kernels that the device program must define.
#[derive(Clone, Copy, Debug, PartialEq, Eq, Structural)]
pub enum Kernel {
    Square,
    Add,
    Subtract,
    Hadamard,
    MultiplyByScalar,
    Sigmoid,
    SigmoidPrime,
    Transpose,
    DotProduct,
}

/// What a kernel expects at one position of its parameter list.
#[derive(Clone, Copy, Debug, PartialEq, Eq, Structural)]
pub enum Role {
    /// A buffer that the kernel reads.
    Source,
    /// A buffer that the kernel writes.
    Sink,
    /// A buffer that the kernel reads and overwrites in place.
    Target,
    /// A dimension, passed as an integer.
    Extent,
    /// A value of the element type, passed as an immediate.
    Scalar,
}

impl Kernel {
    /// The name under which the device program defines the kernel.
    pub open spec fn spec_name(self) -> Seq<char> {
        match self {
            Kernel::Square => "square"@,
            Kernel::Add => "add"@,
            Kernel::Subtract => "subtract"@,
            Kernel::Hadamard => "hadamard"@,
            Kernel::MultiplyByScalar => "multiply_by_scalar"@,
            Kernel::Sigmoid => "sigmoid"@,
            Kernel::SigmoidPrime => "sigmoid_prime"@,
            Kernel::Transpose => "transpose"@,
            Kernel::DotProduct => "dot_product"@,
        }
    }

    /// The parameter list of the kernel, in declared order.
    pub open spec fn signature(self) -> Seq<Role> {
        match self {
            Kernel::Square => seq![Role::Target],
            Kernel::Add | Kernel::Subtract | Kernel::Hadamard => seq![
                Role::Source,
                Role::Source,
                Role::Sink,
            ],
            Kernel::MultiplyByScalar => seq![Role::Source, Role::Sink, Role::Scalar],
            Kernel::Sigmoid | Kernel::SigmoidPrime => seq![Role::Source, Role::Sink],
            Kernel::Transpose => seq![Role::Source, Role::Sink, Role::Extent, Role::Extent],
            Kernel::DotProduct => seq![
                Role::Source,
                Role::Source,
                Role::Sink,
                Role::Extent,
                Role::Extent,
            ],
        }
    }

    /// How many matrices the kernel takes as input.
    pub open spec fn operands(self) -> nat {
        match self {
            Kernel::Add | Kernel::Subtract | Kernel::Hadamard | Kernel::DotProduct => 2,
            _ => 1,
        }
    }

    /// Whether the kernel writes its result over its input.
    pub open spec fn in_place(self) -> bool {
        self == Kernel::Square
    }

    /// The name under which the device program defines the kernel.
    pub fn name(&self) -> (s: &'static str)
        ensures
            s@ == self.spec_name(),
    {
        match self {
            Kernel::Square => "square",
            Kernel::Add => "add",
            Kernel::Subtract => "subtract",
            Kernel::Hadamard => "hadamard",
            Kernel::MultiplyByScalar => "multiply_by_scalar",
            Kernel::Sigmoid => "sigmoid",
            Kernel::SigmoidPrime => "sigmoid_prime",
            Kernel::Transpose => "transpose",
            Kernel::DotProduct => "dot_product",
        }
    }

    /// The parameter list of the kernel, in declared order.
    pub fn roles(&self) -> (v: Vec<Role>)
        ensures
            v@ == self.signature(),
    {
        let v = match self {
            Kernel::Square => vec![Role::Target],
            Kernel::Add | Kernel::Subtract | Kernel::Hadamard => vec![
                Role::Source,
                Role::Source,
                Role::Sink,
            ],
            Kernel::MultiplyByScalar => vec![Role::Source, Role::Sink, Role::Scalar],
            Kernel::Sigmoid | Kernel::SigmoidPrime => vec![Role::Source, Role::Sink],
            Kernel::Transpose => vec![Role::Source, Role::Sink, Role::Extent, Role::Extent],
            Kernel::DotProduct => vec![
                Role::Source,
                Role::Source,
                Role::Sink,
                Role::Extent,
                Role::Extent,
            ],
        };
        v
    }

    /// How many matrices the kernel takes as input.
    pub fn arity(&self) -> (n: usize)
        ensures
            n == self.operands(),
    {
        match self {
            Kernel::Add | Kernel::Subtract | Kernel::Hadamard | Kernel::DotProduct => 2,
            _ => 1,
        }
    }
}

/// No two kernels share a name, so binding by name is unambiguous.
pub proof fn lemma_names_distinct(a: Kernel, b: Kernel)
    requires
        a.spec_name() == b.spec_name(),
    ensures
        a == b,
{
    reveal_strlit("square");
    reveal_strlit("add");
    reveal_strlit("subtract");
    reveal_strlit("hadamard");
    reveal_strlit("multiply_by_scalar");
    reveal_strlit("sigmoid");
    reveal_strlit("sigmoid_prime");
    reveal_strlit("transpose");
    reveal_strlit("dot_product");
    assert(Kernel::Square.spec_name().len() == 6);
    assert(Kernel::Add.spec_name().len() == 3);
    assert(Kernel::Subtract.spec_name().len() == 8 && Kernel::Subtract.spec_name()[0] == 's');
    assert(Kernel::Hadamard.spec_name().len() == 8 && Kernel::Hadamard.spec_name()[0] == 'h');
    assert(Kernel::MultiplyByScalar.spec_name().len() == 18);
    assert(Kernel::Sigmoid.spec_name().len() == 7);
    assert(Kernel::SigmoidPrime.spec_name().len() == 13);
    assert(Kernel::Transpose.spec_name().len() == 9);
    assert(Kernel::DotProduct.spec_name().len() == 11);
}

} // verus!
