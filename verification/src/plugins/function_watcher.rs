//! Reports when execution enters another named function.
use vstd::prelude::*;
use vstd::string::StringExecFns;

use crate::gba::GbaArgs;
use crate::plugins::debug_symbols::{covers, DebugSymbols, Function};

verus! {

/// The name of the first function from index `k` of `functions` on that
/// covers `address` and has a name.
pub open spec fn named_from(functions: Seq<Function>, address: u32, k: int) -> Option<Seq<char>>
    decreases functions.len() - k,
{
    if k < 0 || k >= functions.len() {
        None
    } else if covers(functions[k], address) && functions[k].name is Some {
        Some(functions[k].name->Some_0@)
    } else {
        named_from(functions, address, k + 1)
    }
}

/// The name of the first function that covers `address` and has a name,
/// looking through the symbol tables from index `i` of `symbols` on in
/// order.
pub open spec fn symbols_named_from(symbols: Seq<DebugSymbols>, address: u32, i: int) -> Option<
    Seq<char>,
>
    decreases symbols.len() - i,
{
    if i < 0 || i >= symbols.len() {
        None
    } else {
        match named_from(symbols[i].functions@, address, 0) {
            Some(n) => Some(n),
            None => symbols_named_from(symbols, address, i + 1),
        }
    }
}

/// Watches which function the instruction pointer is in.
#[derive(Debug)]
pub struct FunctionWatcher {
    pub watch_functions: bool,
    pub last_function_name: Option<String>,
    pub debug_symbols: Vec<DebugSymbols>,
}

impl Default for FunctionWatcher {
    /// A watcher that does not watch and knows no functions.
    fn default() -> (r: FunctionWatcher)
        ensures
            !r.watch_functions,
            r.last_function_name is None,
            r.debug_symbols@.len() == 0,
    {
        FunctionWatcher { watch_functions: false, last_function_name: None, debug_symbols: Vec::new() }
    }
}

impl FunctionWatcher {
    /// The name of the first named function that covers `address`.
    pub fn find_function_name_for_address(&self, address: u32) -> (r: Option<&str>)
        ensures
            match r {
                Some(n) => symbols_named_from(self.debug_symbols@, address, 0) == Some(n@),
                None => symbols_named_from(self.debug_symbols@, address, 0) is None,
            },
    {
        find_function_name(&self.debug_symbols, address)
    }

    /// Takes over the options of a run and the symbols of the program.
    pub fn with_args(&mut self, args: GbaArgs, symbols: DebugSymbols)
        ensures
            final(self).watch_functions == args.trace_functions,
            final(self).debug_symbols@ == seq![symbols],
            final(self).last_function_name == old(self).last_function_name,
    {
        self.watch_functions = args.trace_functions;
        let mut debug_symbols: Vec<DebugSymbols> = Vec::new();
        debug_symbols.push(symbols);
        self.debug_symbols = debug_symbols;
    }

    /// Notes that the instruction at `ip` was executed; the name of the
    /// function entered, when watching and when it differs from the last
    /// one noted.
    pub fn function_entered(&mut self, ip: u32) -> (r: Option<String>)
        ensures
            final(self).watch_functions == old(self).watch_functions,
            final(self).debug_symbols@ == old(self).debug_symbols@,
            !old(self).watch_functions ==> r is None && final(self).last_function_name
                == old(self).last_function_name,
            old(self).watch_functions ==> {
                let current = symbols_named_from(old(self).debug_symbols@, ip, 0);
                let last = match old(self).last_function_name {
                    Some(n) => Some(n@),
                    None => None,
                };
                &&& (match final(self).last_function_name {
                    Some(n) => current == Some(n@),
                    None => current is None,
                })
                &&& (match r {
                    Some(n) => current != last && current == Some(n@),
                    None => current == last || current is None,
                })
            },
    {
        if !self.watch_functions {
            return None;
        }
        let current: Option<String> = match find_function_name(&self.debug_symbols, ip) {
            Some(n) => Some(String::from_str(n)),
            None => None,
        };
        let changed = match (&current, &self.last_function_name) {
            (Some(a), Some(b)) => !(*a == *b),
            (None, None) => false,
            _ => true,
        };
        if changed {
            let reported = match &current {
                Some(n) => Some(n.clone()),
                None => None,
            };
            self.last_function_name = current;
            reported
        } else {
            None
        }
    }
}

/// The name of the first named function of `symbols` that covers
/// `address`.
pub fn find_function_name(symbols: &Vec<DebugSymbols>, address: u32) -> (r: Option<&str>)
    ensures
        match r {
            Some(n) => symbols_named_from(symbols@, address, 0) == Some(n@),
            None => symbols_named_from(symbols@, address, 0) is None,
        },
{
    let mut i: usize = symbols.len();
    let mut found: Option<&str> = None;
    while i > 0
        invariant
            i <= symbols@.len(),
            match found {
                Some(n) => symbols_named_from(symbols@, address, i as int) == Some(n@),
                None => symbols_named_from(symbols@, address, i as int) is None,
            },
        decreases i,
    {
        i = i - 1;
        let functions = &symbols[i].functions;
        let mut k: usize = functions.len();
        let mut in_table: Option<&str> = None;
        while k > 0
            invariant
                k <= functions@.len(),
                match in_table {
                    Some(n) => named_from(functions@, address, k as int) == Some(n@),
                    None => named_from(functions@, address, k as int) is None,
                },
            decreases k,
        {
            k = k - 1;
            let f = &functions[k];
            if f.covers_address(address) {
                match &f.name {
                    Some(n) => {
                        in_table = Some(n.as_str());
                    },
                    None => {},
                }
            }
        }
        match in_table {
            Some(n) => {
                found = Some(n);
            },
            None => {},
        }
    }
    found
}

} // verus!
