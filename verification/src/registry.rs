//! What the extension registers with the engine: three table providers and
//! two scalar functions, each under a fixed name.

use vstd::prelude::*;

verus! {

/// The table providers.
#[derive(Debug, Clone, Copy, PartialEq, Eq)]
pub enum Provider {
    Sheets,
    Cells,
    Rows,
}

/// The scalar functions.
#[derive(Debug, Clone, Copy, PartialEq, Eq)]
pub enum Function {
    /// The accessor of a row's cells.
    XlAt,
    /// The version of the extension.
    XlVersion,
}

/// One thing to register.
#[derive(Debug, Clone, Copy, PartialEq, Eq)]
pub enum Registration {
    /// A table provider under a name. A provider that overloads functions
    /// is asked for them by the engine.
    Table { name: &'static str, provider: Provider, overloads: bool },
    /// A scalar function under a name, with the number of its arguments.
    Scalar { name: &'static str, arguments: i32, function: Function },
}

/// A registration with its name as a sequence of characters.
pub enum RegistrationView {
    Table { name: Seq<char>, provider: Provider, overloads: bool },
    Scalar { name: Seq<char>, arguments: i32, function: Function },
}

impl View for Registration {
    type V = RegistrationView;

    open spec fn view(&self) -> RegistrationView {
        match self {
            Registration::Table { name, provider, overloads } => RegistrationView::Table {
                name: name@,
                provider: *provider,
                overloads: *overloads,
            },
            Registration::Scalar { name, arguments, function } => RegistrationView::Scalar {
                name: name@,
                arguments: *arguments,
                function: *function,
            },
        }
    }
}

/// Everything the extension registers, in the order of registration.
pub open spec fn registry() -> Seq<RegistrationView> {
    seq![
        RegistrationView::Table {
            name: "xl_sheets"@,
            provider: Provider::Sheets,
            overloads: false,
        },
        RegistrationView::Table { name: "xl_cells"@, provider: Provider::Cells, overloads: false },
        RegistrationView::Table { name: "xl_rows"@, provider: Provider::Rows, overloads: true },
        RegistrationView::Scalar { name: "xl_at"@, arguments: 2, function: Function::XlAt },
        RegistrationView::Scalar {
            name: "xl_version"@,
            arguments: 0,
            function: Function::XlVersion,
        },
    ]
}

/// Everything the extension registers, in the order of registration.
pub fn registrations() -> (list: Vec<Registration>)
    ensures
        list@.map_values(|r: Registration| r@) == registry(),
{
    let list = vec![
        Registration::Table { name: "xl_sheets", provider: Provider::Sheets, overloads: false },
        Registration::Table { name: "xl_cells", provider: Provider::Cells, overloads: false },
        Registration::Table { name: "xl_rows", provider: Provider::Rows, overloads: true },
        Registration::Scalar { name: "xl_at", arguments: 2, function: Function::XlAt },
        Registration::Scalar { name: "xl_version", arguments: 0, function: Function::XlVersion },
    ];
    proof {
        assert(list@.map_values(|r: Registration| r@) =~= registry());
    }
    list
}

} // verus!
