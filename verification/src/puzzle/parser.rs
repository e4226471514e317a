use vstd::prelude::*;
use vstd::string::StrSliceExecFns;
use crate::puzzle::Puzzle;

verus! {

/// The longest definition text the parser accepts, in characters. The YAML
/// loader recurses once per nesting level of the documents it builds, and
/// every nesting level of any value — aliases included, since an aliased
/// value is itself spelled out somewhere in the text — costs at least one
/// character of the text. Bounding the text therefore bounds that recursion,
/// and the depth of every tree handed back, to well within an ordinary call
/// stack; a nonogram definition is a few lines per row and column and stays
/// far below the bound.
pub const MAX_DEFINITION_LEN: usize = 16384;

/// A puzzle definition could not be understood. Carries a human-readable
/// description of what went wrong; construction never starts from a
/// definition that failed here.
#[derive(Debug)]
pub struct InputError {
    pub message: String,
}

impl InputError {
    pub fn new(message: String) -> (e: InputError)
        ensures
            e.message == message,
    {
        InputError { message }
    }

    /// The human-readable description of the failure.
    pub fn message(&self) -> (r: &String)
        ensures
            r == self.message,
    {
        &self.message
    }
}

#[verifier::external_type_specification]
#[verifier::external_body]
pub struct ExYaml(yaml_rust::Yaml);

#[verifier::external_type_specification]
#[verifier::external_body]
pub struct ExScanError(yaml_rust::ScanError);

/// The number a node holds when it is an integer node, and nothing
/// otherwise: a function of the node alone.
pub uninterp spec fn yaml_int_of(value: yaml_rust::Yaml) -> Option<i64>;

/// The element count of a node when it is a sequence node, and nothing
/// otherwise: a function of the node alone.
pub uninterp spec fn yaml_seq_len_of(value: yaml_rust::Yaml) -> Option<nat>;

/// What `yaml_int_of` answers on the `j`-th element of a sequence node: a
/// function of the node and the position alone.
pub uninterp spec fn yaml_seq_int_at(value: yaml_rust::Yaml, j: int) -> Option<i64>;

/// The entry count of a node when it is a mapping node, and nothing
/// otherwise: a function of the node alone.
pub uninterp spec fn yaml_map_len_of(value: yaml_rust::Yaml) -> Option<nat>;

/// What `yaml_int_list_of` answers on the `k`-th entry value of a mapping
/// node, the entries taken in the mapping's own order: a function of the
/// node and the position alone.
pub uninterp spec fn yaml_map_hint_at(value: yaml_rust::Yaml, k: int) -> Option<Seq<i64>>;

/// The whole integer content of a sequence node: all its elements in order,
/// when the node is a sequence and every element an integer node; nothing
/// otherwise.
pub open spec fn yaml_int_list_of(value: yaml_rust::Yaml) -> Option<Seq<i64>> {
    match yaml_seq_len_of(value) {
        Option::None => Option::None,
        Option::Some(n) => {
            if forall|j: int| 0 <= j < n ==> (#[trigger] yaml_seq_int_at(value, j)) is Some {
                Option::Some(Seq::new(n, |j: int| yaml_seq_int_at(value, j)->Some_0))
            } else {
                Option::None
            }
        },
    }
}

/// One hint entry is usable when it is an integer list whose every number is
/// non-negative and fits the machine.
pub open spec fn hint_entry_ok(entry: Option<Seq<i64>>) -> bool {
    &&& entry is Some
    &&& forall|j: int|
        0 <= j < entry->Some_0.len() ==> 0 <= #[trigger] entry->Some_0[j]
            && entry->Some_0[j] as int <= usize::MAX as int
}

/// A hints node parses when it is a mapping and every one of its entries is
/// a usable hint entry.
pub open spec fn hints_ok(value: yaml_rust::Yaml) -> bool {
    &&& yaml_map_len_of(value) is Some
    &&& forall|k: int|
        0 <= k < yaml_map_len_of(value)->Some_0 ==> hint_entry_ok(
            #[trigger] yaml_map_hint_at(value, k),
        )
}

/// A usable hint entry, as the hint list the puzzle stores.
pub open spec fn hint_of_entry(entry: Seq<i64>) -> Seq<usize> {
    entry.map_values(|v: i64| v as usize)
}

/// Relies on yaml_rust::YamlLoader::load_from_str: scans a whole definition
/// text into its top-level documents (possibly none), or reports where
/// scanning failed. The loader recurses once per nesting level (its scanner
/// itself caps flow nesting), so the caller keeps the text under
/// `MAX_DEFINITION_LEN`, which bounds the recursion here and the depth of
/// every tree handed back.
#[verifier::external_body]
fn load_documents(source: &str) -> Result<Vec<yaml_rust::Yaml>, yaml_rust::ScanError>
    requires
        source@.len() as int <= MAX_DEFINITION_LEN as int,
{
    yaml_rust::YamlLoader::load_from_str(source)
}

/// Relies on the `Index<&str>` impl of yaml_rust::Yaml: looks the key up when
/// the value is a mapping, and hands back the `BadValue` marker when it is
/// not or when the key is absent; it never fails. What the returned node
/// holds is read through the contracts of the accessors below.
#[verifier::external_body]
fn yaml_at<'a>(value: &'a yaml_rust::Yaml, key: &str) -> &'a yaml_rust::Yaml {
    &value[key]
}

/// Relies on yaml_rust::Yaml::as_hash, which exposes the entries when the
/// value is a mapping and nothing otherwise, and on the mapping's `values`
/// iterator, which walks them in the mapping's own order; the body only
/// copies the entry values out in that order, dropping the keys. The entry
/// values and their order are part of the mapping value itself, so what
/// comes back is a function of `value` alone, named entry by entry by
/// `yaml_map_hint_at`.
#[verifier::external_body]
fn yaml_mapping_values(value: &yaml_rust::Yaml) -> (r: Option<Vec<yaml_rust::Yaml>>)
    ensures
        (r is Some) == (yaml_map_len_of(*value) is Some),
        r matches Some(vals) ==> {
            &&& vals@.len() == yaml_map_len_of(*value)->Some_0
            &&& forall|k: int|
                0 <= k < vals@.len() ==> (#[trigger] yaml_int_list_of(vals@[k]))
                    == yaml_map_hint_at(*value, k)
        },
{
    match value.as_hash() {
        Some(entries) => Some(entries.values().cloned().collect()),
        None => None,
    }
}

/// Relies on yaml_rust::Yaml::as_vec: exposes the elements when the value is
/// a sequence and nothing otherwise. The elements and their order are part
/// of the sequence value itself, so what each holds is a function of `value`
/// and the position alone, named by `yaml_seq_int_at`.
#[verifier::external_body]
fn yaml_sequence<'a>(value: &'a yaml_rust::Yaml) -> (r: Option<&'a Vec<yaml_rust::Yaml>>)
    ensures
        (r is Some) == (yaml_seq_len_of(*value) is Some),
        r matches Some(elems) ==> {
            &&& elems@.len() == yaml_seq_len_of(*value)->Some_0
            &&& forall|j: int|
                0 <= j < elems@.len() ==> (#[trigger] yaml_int_of(elems@[j])) == yaml_seq_int_at(
                    *value,
                    j,
                )
        },
{
    value.as_vec()
}

/// Relies on yaml_rust::Yaml::as_i64: the number when the value is an
/// integer node, nothing otherwise — a match on the value's variant, so a
/// function of the value alone.
#[verifier::external_body]
fn yaml_integer(value: &yaml_rust::Yaml) -> (r: Option<i64>)
    ensures
        r == yaml_int_of(*value),
{
    value.as_i64()
}

/// Relies on yaml_rust::ScanError: its marker carries the line and column of
/// the failure, and its display form the reason; the body only formats them
/// into one message.
#[verifier::external_body]
fn scan_error_text(error: &yaml_rust::ScanError) -> String {
    format!(
        "Failed to parse yaml: line {}, col {}\nReason: {}",
        error.marker().line(),
        error.marker().col(),
        error,
    )
}

/// Reads a puzzle definition into hint lists and wires the puzzle up.
pub struct PuzzleParser;

impl PuzzleParser {
    /// Parse a whole definition text: a top-level `puzzle` mapping holding a
    /// `rows` mapping and a `columns` mapping, each entry one ordered list of
    /// non-negative hint numbers. Any puzzle handed back is fully wired —
    /// rectangular, both line families viewing the one store — with every
    /// cell empty and one row per row entry, one column per column entry.
    /// A text longer than `MAX_DEFINITION_LEN` characters is refused
    /// outright, which keeps the loader's recursion bounded.
    pub fn parse_yaml(contents: &str) -> (r: Result<Puzzle, InputError>)
        ensures
            r matches Ok(p) ==> p.wf() && p.all_empty(),
            contents@.len() as int > MAX_DEFINITION_LEN as int ==> (r matches Err(e)
                && e.message@ == "Puzzle definition is too large"@),
    {
        if contents.unicode_len() > MAX_DEFINITION_LEN {
            return Err(InputError::new("Puzzle definition is too large".to_owned()));
        }
        let documents = match load_documents(contents) {
            Ok(documents) => documents,
            Err(error) => {
                return Err(InputError::new(scan_error_text(&error)));
            },
        };
        if documents.len() == 0 {
            return Err(InputError::new("Failed to parse dimensions".to_owned()));
        }
        let puzzle = yaml_at(&documents[0], "puzzle");
        let rows_node = yaml_at(puzzle, "rows");
        let columns_node = yaml_at(puzzle, "columns");
        Self::build_from_nodes(rows_node, columns_node)
    }

    /// Wire the puzzle from the two extracted hint nodes. Succeeds exactly
    /// when both nodes parse as hint mappings and the resulting grid fits
    /// the machine; the puzzle then has one row per row entry and one
    /// column per column entry, with exactly those hints and every cell
    /// empty.
    fn build_from_nodes(rows_node: &yaml_rust::Yaml, columns_node: &yaml_rust::Yaml) -> (r: Result<
        Puzzle,
        InputError,
    >)
        ensures
            (r is Ok) == ({
                &&& hints_ok(*rows_node)
                &&& hints_ok(*columns_node)
                &&& (yaml_map_len_of(*rows_node)->Some_0 as int) * (yaml_map_len_of(
                    *columns_node,
                )->Some_0 as int) <= usize::MAX as int
            }),
            r matches Ok(p) ==> {
                &&& p.wf()
                &&& p.all_empty()
                &&& p.dimensions.0 as nat == yaml_map_len_of(*rows_node)->Some_0
                &&& p.dimensions.1 as nat == yaml_map_len_of(*columns_node)->Some_0
                &&& forall|y: int|
                    0 <= y < p.rows@.len() ==> (#[trigger] p.rows@[y]).hint.numbers@
                        == hint_of_entry(yaml_map_hint_at(*rows_node, y)->Some_0)
                &&& forall|x: int|
                    0 <= x < p.columns@.len() ==> (#[trigger] p.columns@[x]).hint.numbers@
                        == hint_of_entry(yaml_map_hint_at(*columns_node, x)->Some_0)
            },
            (yaml_map_len_of(*rows_node) is None || yaml_map_len_of(*columns_node) is None) ==> (
            r matches Err(e) && e.message@ == "Failed to parse dimensions"@),
            hints_ok(*rows_node) && hints_ok(*columns_node) && (yaml_map_len_of(
                *rows_node,
            )->Some_0 as int) * (yaml_map_len_of(*columns_node)->Some_0 as int)
                > usize::MAX as int ==> (r matches Err(e) && e.message@ == "Puzzle is too large"@),
    {
        if Self::get_dimensions(rows_node, columns_node).is_none() {
            return Err(InputError::new("Failed to parse dimensions".to_owned()));
        }

        let column_hints = match Self::parse_hints(columns_node) {
            Ok(hints) => hints,
            Err(error) => {
                return Err(error);
            },
        };
        let row_hints = match Self::parse_hints(rows_node) {
            Ok(hints) => hints,
            Err(error) => {
                return Err(error);
            },
        };

        let height = row_hints.len();
        let width = column_hints.len();
        if width != 0 && height > usize::MAX / width {
            proof {
                let w = width as int;
                let q = usize::MAX as int / w;
                vstd::arithmetic::div_mod::lemma_fundamental_div_mod(usize::MAX as int, w);
                vstd::arithmetic::div_mod::lemma_mod_bound(usize::MAX as int, w);
                assert(height as int * w >= (q + 1) * w) by (nonlinear_arith)
                    requires
                        height as int >= q + 1,
                        w >= 1,
                ;
                assert((q + 1) * w == q * w + w) by (nonlinear_arith);
            }
            return Err(InputError::new("Puzzle is too large".to_owned()));
        }
        proof {
            if width != 0 {
                vstd::arithmetic::mul::lemma_mul_inequality(
                    height as int,
                    usize::MAX as int / width as int,
                    width as int,
                );
                vstd::arithmetic::div_mod::lemma_fundamental_div_mod(
                    usize::MAX as int,
                    width as int,
                );
            } else {
                assert(height as int * 0 == 0) by (nonlinear_arith);
            }
        }
        Ok(Puzzle::from_hints(&row_hints, &column_hints))
    }

    /// The entry counts of the definition's `rows` and `columns` mappings:
    /// the grid's dimensions. Nothing exactly when either node is no
    /// mapping.
    fn get_dimensions(rows: &yaml_rust::Yaml, columns: &yaml_rust::Yaml) -> (r: Option<
        (usize, usize),
    >)
        ensures
            (r is Some) == (yaml_map_len_of(*rows) is Some && yaml_map_len_of(*columns) is Some),
            r matches Some(dims) ==> dims.0 as nat == yaml_map_len_of(*rows)->Some_0
                && dims.1 as nat == yaml_map_len_of(*columns)->Some_0,
    {
        let row_values = yaml_mapping_values(rows);
        let column_values = yaml_mapping_values(columns);
        match (row_values, column_values) {
            (Some(x), Some(y)) => Some((x.len(), y.len())),
            _ => None,
        }
    }

    /// Read one family of hints: a mapping from line identifiers to ordered
    /// lists of numbers, in the mapping's own order. Succeeds exactly when
    /// the node is a mapping and every entry is a list of integers, each
    /// non-negative and fitting the machine; the result then holds exactly
    /// those lists.
    fn parse_hints(hints: &yaml_rust::Yaml) -> (r: Result<Vec<Vec<usize>>, InputError>)
        ensures
            (r is Ok) == hints_ok(*hints),
            r matches Ok(lines) ==> {
                &&& lines@.len() == yaml_map_len_of(*hints)->Some_0
                &&& forall|k: int|
                    0 <= k < lines@.len() ==> (#[trigger] lines@[k])@ == hint_of_entry(
                        yaml_map_hint_at(*hints, k)->Some_0,
                    )
            },
    {
        let values = match yaml_mapping_values(hints) {
            Some(values) => values,
            None => {
                return Err(InputError::new("Failed to parse hints".to_owned()));
            },
        };
        let mut lines: Vec<Vec<usize>> = Vec::new();
        let mut i: usize = 0;
        while i < values.len()
            invariant
                i <= values@.len(),
                yaml_map_len_of(*hints) is Some,
                values@.len() == yaml_map_len_of(*hints)->Some_0,
                forall|k: int|
                    0 <= k < values@.len() ==> (#[trigger] yaml_int_list_of(values@[k]))
                        == yaml_map_hint_at(*hints, k),
                lines@.len() == i,
                forall|k: int|
                    0 <= k < i ==> hint_entry_ok(#[trigger] yaml_map_hint_at(*hints, k)),
                forall|k: int|
                    0 <= k < i ==> (#[trigger] lines@[k])@ == hint_of_entry(
                        yaml_map_hint_at(*hints, k)->Some_0,
                    ),
            decreases values@.len() - i,
        {
            let entries = match yaml_sequence(&values[i]) {
                Some(entries) => entries,
                None => {
                    proof {
                        assert(yaml_int_list_of(values@[i as int]) is None);
                        assert(!hint_entry_ok(yaml_map_hint_at(*hints, i as int)));
                    }
                    return Err(InputError::new("Poorly formatted hints".to_owned()));
                },
            };
            let mut line: Vec<usize> = Vec::new();
            let mut j: usize = 0;
            while j < entries.len()
                invariant
                    j <= entries@.len(),
                    i < values@.len(),
                    values@.len() == yaml_map_len_of(*hints)->Some_0,
                    yaml_map_len_of(*hints) is Some,
                    forall|k: int|
                        0 <= k < values@.len() ==> (#[trigger] yaml_int_list_of(values@[k]))
                            == yaml_map_hint_at(*hints, k),
                    yaml_seq_len_of(values@[i as int]) == Some(entries@.len() as nat),
                    forall|l: int|
                        0 <= l < entries@.len() ==> (#[trigger] yaml_int_of(entries@[l]))
                            == yaml_seq_int_at(values@[i as int], l),
                    line@.len() == j,
                    forall|l: int|
                        0 <= l < j ==> (#[trigger] yaml_seq_int_at(values@[i as int], l)) is Some,
                    forall|l: int|
                        0 <= l < j ==> 0 <= yaml_seq_int_at(values@[i as int], l)->Some_0
                            && yaml_seq_int_at(values@[i as int], l)->Some_0 as int
                            <= usize::MAX as int,
                    forall|l: int|
                        0 <= l < j ==> (#[trigger] line@[l]) as int == yaml_seq_int_at(
                            values@[i as int],
                            l,
                        )->Some_0 as int,
                decreases entries@.len() - j,
            {
                let number = match yaml_integer(&entries[j]) {
                    Some(number) => number,
                    None => {
                        proof {
                            assert(yaml_seq_int_at(values@[i as int], j as int) is None);
                            assert(yaml_int_list_of(values@[i as int]) is None);
                            assert(!hint_entry_ok(yaml_map_hint_at(*hints, i as int)));
                        }
                        return Err(InputError::new("Hint is not a number".to_owned()));
                    },
                };
                if number < 0 || number as u64 > usize::MAX as u64 {
                    proof {
                        let entry = yaml_map_hint_at(*hints, i as int);
                        assert(entry == yaml_int_list_of(values@[i as int]));
                        if entry is Some {
                            assert(entry->Some_0[j as int] == yaml_seq_int_at(
                                values@[i as int],
                                j as int,
                            )->Some_0);
                            assert(!hint_entry_ok(entry));
                        }
                    }
                    return Err(InputError::new("Hint is not a number".to_owned()));
                }
                line.push(number as u64 as usize);
                j = j + 1;
            }
            proof {
                assert(yaml_int_list_of(values@[i as int]) is Some);
                assert(hint_entry_ok(yaml_map_hint_at(*hints, i as int)));
                assert(line@ =~= hint_of_entry(yaml_map_hint_at(*hints, i as int)->Some_0));
            }
            lines.push(line);
            i = i + 1;
        }
        Ok(lines)
    }
}

} // verus!
