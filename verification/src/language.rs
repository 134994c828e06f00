use vstd::prelude::*;
use vstd::string::*;

verus! {

/// The closed set of project languages. Each member selects one asset
/// store and one pack strategy; the two stay in lockstep.
#[derive(Clone, Copy, Debug, PartialEq, Eq, Structural)]
pub enum Language {
    Rust,
}

impl Default for Language {
    /// The language a new project gets when none is chosen.
    fn default() -> (r: Self)
        ensures
            r == Language::Rust,
    {
        Language::Rust
    }
}

/// The persisted project descriptor: the single source of truth for
/// "this directory is a managed project, and this is how to pack it".
pub struct CodinGameConfig {
    pub name: String,
    pub language: Language,
}

/// The one indentation unit wrapped library lines are prefixed with.
pub open spec fn indent_unit() -> Seq<char> {
    "    "@
}

/// The line that opens the named module block.
pub open spec fn module_open_line(name: Seq<char>) -> Seq<char> {
    "mod "@ + name + " {"@
}

/// The line that closes the module block.
pub open spec fn module_close_line() -> Seq<char> {
    "}"@
}

/// The character sequences of a vector of lines.
pub open spec fn lines_view(v: Seq<String>) -> Seq<Seq<char>> {
    Seq::new(v.len(), |i: int| v[i]@)
}

/// Every line prefixed with one indentation unit.
pub open spec fn indented(lines: Seq<Seq<char>>) -> Seq<Seq<char>> {
    lines.map_values(|l: Seq<char>| indent_unit() + l)
}

/// The library lines wrapped in a named module block.
pub open spec fn wrapped_lines(module: Seq<char>, lib: Seq<Seq<char>>) -> Seq<Seq<char>> {
    seq![module_open_line(module)] + indented(lib) + seq![module_close_line()]
}

/// The lines of the packed output: the wrapped library block followed
/// by the entry lines, unchanged.
pub open spec fn packed_lines(
    module: Seq<char>,
    lib: Seq<Seq<char>>,
    entry: Seq<Seq<char>>,
) -> Seq<Seq<char>> {
    wrapped_lines(module, lib) + entry
}

/// One text from a sequence of lines, each line closed by a single
/// newline.
pub open spec fn text_of(lines: Seq<Seq<char>>) -> Seq<char>
    decreases lines.len(),
{
    if lines.len() == 0 {
        Seq::<char>::empty()
    } else {
        text_of(lines.drop_last()) + lines.last() + seq!['\n']
    }
}

/// Rendering lines to text distributes over concatenation.
pub proof fn lemma_text_of_add(a: Seq<Seq<char>>, b: Seq<Seq<char>>)
    ensures
        text_of(a + b) == text_of(a) + text_of(b),
    decreases b.len(),
{
    if b.len() == 0 {
        assert(a + b =~= a);
        assert(text_of(a) + text_of(b) =~= text_of(a));
    } else {
        lemma_text_of_add(a, b.drop_last());
        assert((a + b).drop_last() =~= a + b.drop_last());
        assert((a + b).last() == b.last());
        assert(text_of(a) + text_of(b) =~= (text_of(a) + text_of(b.drop_last())) + b.last()
            + seq!['\n']);
    }
}

/// A line that holds no newline of its own.
pub open spec fn line_free(l: Seq<char>) -> bool {
    forall|i: int| 0 <= i < l.len() ==> l[i] != '\n'
}

/// How many newline characters a text holds.
pub open spec fn newline_count(s: Seq<char>) -> nat
    decreases s.len(),
{
    if s.len() == 0 {
        0
    } else {
        newline_count(s.drop_last()) + if s.last() == '\n' {
            1nat
        } else {
            0nat
        }
    }
}

/// Newline counting distributes over concatenation.
proof fn lemma_newline_count_add(a: Seq<char>, b: Seq<char>)
    ensures
        newline_count(a + b) == newline_count(a) + newline_count(b),
    decreases b.len(),
{
    if b.len() == 0 {
        assert(a + b =~= a);
    } else {
        lemma_newline_count_add(a, b.drop_last());
        assert((a + b).drop_last() =~= a + b.drop_last());
        assert((a + b).last() == b.last());
    }
}

/// A line without newlines counts none.
proof fn lemma_newline_count_free(l: Seq<char>)
    requires
        line_free(l),
    ensures
        newline_count(l) == 0,
    decreases l.len(),
{
    if l.len() > 0 {
        let t = l.drop_last();
        assert(forall|i: int| 0 <= i < t.len() ==> t[i] != '\n');
        lemma_newline_count_free(t);
    }
}

/// The text of newline-free lines holds exactly one newline per line.
proof fn lemma_text_of_count(lines: Seq<Seq<char>>)
    requires
        forall|i: int| 0 <= i < lines.len() ==> line_free(#[trigger] lines[i]),
    ensures
        newline_count(text_of(lines)) == lines.len(),
    decreases lines.len(),
{
    if lines.len() > 0 {
        let t = lines.drop_last();
        assert(forall|i: int| 0 <= i < t.len() ==> line_free(#[trigger] t[i]));
        lemma_text_of_count(t);
        lemma_newline_count_add(text_of(t), lines.last());
        lemma_newline_count_add(text_of(t) + lines.last(), seq!['\n']);
        lemma_newline_count_free(lines.last());
        assert(seq!['\n'].drop_last() =~= Seq::<char>::empty());
        assert(seq!['\n'].last() == '\n');
        assert(newline_count(Seq::<char>::empty()) == 0);
        assert(newline_count(seq!['\n']) == 1);
    }
}

/// Packing round-trips structurally: the packed text of a library of L
/// newline-free lines and an entry of E such lines holds exactly
/// L + 2 + E lines, the wrapped block accounting for the two extra.
pub proof fn lemma_pack_line_count(module: Seq<char>, lib: Seq<Seq<char>>, entry: Seq<Seq<char>>)
    requires
        line_free(module),
        forall|i: int| 0 <= i < lib.len() ==> line_free(#[trigger] lib[i]),
        forall|i: int| 0 <= i < entry.len() ==> line_free(#[trigger] entry[i]),
    ensures
        packed_lines(module, lib, entry).len() == lib.len() + 2 + entry.len(),
        newline_count(text_of(packed_lines(module, lib, entry))) == lib.len() + 2 + entry.len(),
{
    let packed = packed_lines(module, lib, entry);
    reveal_strlit("mod ");
    reveal_strlit(" {");
    reveal_strlit("}");
    reveal_strlit("    ");
    assert(line_free(module_open_line(module))) by {
        assert forall|i: int| 0 <= i < module_open_line(module).len() implies module_open_line(
            module,
        )[i] != '\n' by {
            let l = module_open_line(module);
            if i < "mod "@.len() {
                assert(l[i] == "mod "@[i]);
            } else if i < "mod "@.len() + module.len() {
                assert(l[i] == module[i - "mod "@.len()]);
            } else {
                assert(l[i] == " {"@[i - "mod "@.len() - module.len()]);
            }
        }
    }
    assert(line_free(module_close_line()));
    assert forall|i: int| 0 <= i < packed.len() implies line_free(#[trigger] packed[i]) by {
        if 1 <= i < 1 + lib.len() {
            assert(packed[i] == indent_unit() + lib[i - 1]);
            assert forall|k: int| 0 <= k < packed[i].len() implies packed[i][k] != '\n' by {
                if k < indent_unit().len() {
                    assert(packed[i][k] == "    "@[k]);
                } else {
                    assert(packed[i][k] == lib[i - 1][k - indent_unit().len()]);
                }
            }
        } else if i >= 1 + lib.len() + 1 {
            assert(packed[i] == entry[i - lib.len() - 2]);
        }
    }
    lemma_text_of_count(packed);
}

/// Every library line stands in the packed output behind exactly one
/// indentation unit, in order; every entry line stands unchanged after
/// the closed block, in order.
pub proof fn lemma_pack_line_shapes(module: Seq<char>, lib: Seq<Seq<char>>, entry: Seq<Seq<char>>)
    ensures
        packed_lines(module, lib, entry).len() == lib.len() + 2 + entry.len(),
        packed_lines(module, lib, entry)[0] == module_open_line(module),
        forall|i: int|
            0 <= i < lib.len() ==> packed_lines(module, lib, entry)[1 + i] == indent_unit()
                + #[trigger] lib[i],
        packed_lines(module, lib, entry)[lib.len() as int + 1] == module_close_line(),
        forall|j: int|
            0 <= j < entry.len() ==> packed_lines(module, lib, entry)[lib.len() as int + 2 + j]
                == #[trigger] entry[j],
{
}

/// The text of a single line is that line and its closing newline.
proof fn lemma_text_of_one(l: Seq<char>)
    ensures
        text_of(seq![l]) == l + seq!['\n'],
{
    assert(seq![l].drop_last() =~= Seq::<Seq<char>>::empty());
    assert(text_of(Seq::<Seq<char>>::empty()) + l + seq!['\n'] =~= l + seq!['\n']);
}

impl Language {
    /// Pack one source file's lines, optionally wrapped in a named
    /// module block with every original line indented by one unit.
    fn pack_sourcecode(&self, lines: &Vec<String>, module_name: Option<&String>) -> (r: String)
        ensures
            match module_name {
                Some(m) => r@ == text_of(wrapped_lines(m@, lines_view(lines@))),
                None => r@ == text_of(lines_view(lines@)),
            },
    {
        match self {
            Language::Rust => {
                let mut res = String::new();
                proof {
                    reveal_strlit("\n");
                    reveal_strlit(" {");
                    reveal_strlit(" {\n");
                    reveal_strlit("}");
                    reveal_strlit("}\n");
                }
                match module_name {
                    Some(module) => {
                        res.append("mod ");
                        res.append(module.as_str());
                        res.append(" {\n");
                        proof {
                            assert(" {\n"@ =~= " {"@ + seq!['\n']);
                            lemma_text_of_one(module_open_line(module@));
                            assert(res@ =~= module_open_line(module@) + seq!['\n']);
                        }
                        let n = lines.len();
                        let mut i: usize = 0;
                        while i < n
                            invariant
                                i <= n,
                                n == lines@.len(),
                                res@ == text_of(
                                    seq![module_open_line(module@)] + indented(
                                        lines_view(lines@).take(i as int),
                                    ),
                                ),
                            decreases n - i,
                        {
                            let ghost before = seq![module_open_line(module@)] + indented(
                                lines_view(lines@).take(i as int),
                            );
                            res.append("    ");
                            res.append(lines[i].as_str());
                            res.append("\n");
                            proof {
                                reveal_strlit("\n");
                                assert(res@ =~= text_of(before) + (indent_unit()
                                    + lines_view(lines@)[i as int]) + seq!['\n']);
                                assert(seq![module_open_line(module@)] + indented(
                                    lines_view(lines@).take(i as int + 1),
                                ) =~= before.push(indent_unit() + lines_view(lines@)[i as int]));
                                assert(before.push(
                                    indent_unit() + lines_view(lines@)[i as int],
                                ).drop_last() =~= before);
                            }
                            i = i + 1;
                        }
                        res.append("}\n");
                        proof {
                            assert(lines_view(lines@).take(n as int) =~= lines_view(lines@));
                            let ghost body = seq![module_open_line(module@)] + indented(
                                lines_view(lines@),
                            );
                            assert("}\n"@ =~= module_close_line() + seq!['\n']);
                            assert(wrapped_lines(module@, lines_view(lines@)) =~= body.push(
                                module_close_line(),
                            ));
                            assert(body.push(module_close_line()).drop_last() =~= body);
                            assert(res@ =~= text_of(wrapped_lines(module@, lines_view(lines@))));
                        }
                        res
                    },
                    None => {
                        let n = lines.len();
                        let mut i: usize = 0;
                        while i < n
                            invariant
                                i <= n,
                                n == lines@.len(),
                                res@ == text_of(lines_view(lines@).take(i as int)),
                            decreases n - i,
                        {
                            let ghost before = lines_view(lines@).take(i as int);
                            res.append(lines[i].as_str());
                            res.append("\n");
                            proof {
                                reveal_strlit("\n");
                                assert(res@ =~= text_of(before) + lines_view(lines@)[i as int]
                                    + seq!['\n']);
                                assert(lines_view(lines@).take(i as int + 1) =~= before.push(
                                    lines_view(lines@)[i as int],
                                ));
                                assert(before.push(lines_view(lines@)[i as int]).drop_last()
                                    =~= before);
                            }
                            i = i + 1;
                        }
                        proof {
                            assert(lines_view(lines@).take(n as int) =~= lines_view(lines@));
                        }
                        res
                    },
                }
            },
        }
    }

    /// Linearize a project's two source files into one submission text:
    /// the library lines wrapped in a module named after the project,
    /// then the entry lines appended unchanged, every line closed by a
    /// newline.
    pub fn pack(
        &self,
        config: &CodinGameConfig,
        lib_lines: &Vec<String>,
        main_lines: &Vec<String>,
    ) -> (r: String)
        ensures
            r@ == text_of(
                packed_lines(config.name@, lines_view(lib_lines@), lines_view(main_lines@)),
            ),
    {
        match self {
            Language::Rust => {
                let mut data = self.pack_sourcecode(lib_lines, Some(&config.name));
                let entry = self.pack_sourcecode(main_lines, None);
                data.append(entry.as_str());
                proof {
                    lemma_text_of_add(
                        wrapped_lines(config.name@, lines_view(lib_lines@)),
                        lines_view(main_lines@),
                    );
                }
                data
            },
        }
    }
}

} // verus!
