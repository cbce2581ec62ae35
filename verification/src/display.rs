//! The display form of values.
//!
//! Integers are written in decimal, booleans as `verdadeiro` and `falso`,
//! texts as they are, the null value as `nulo`, a vector as its items between
//! brackets, a record instance by the name of its schema and a variant by its
//! tag. The decimal form of a real comes from the host: where the host has
//! not given it yet, the real is reported as missing.
use vstd::prelude::*;
use vstd::string::StringExecFns;
use crate::allocator::{heap_regobj, heap_vector, Alloc, Obj};
use crate::ama_value::{values_of, AmaValue, Value};
use crate::host::{find_text, reply_texts, text_of, Fault, RealText, Reply, ReplyView};
use crate::module::{modules_of, spec_schema_name, Module, ModuleState};
use crate::text::{decimal, int_decimal, push_decimal, push_int};

verus! {

broadcast use vstd::string::group_string_axioms;

/// The display form of a value, with the reals whose text is missing, or the
/// reason why the value has no display form. `fuel` bounds the depth of
/// vectors inside vectors.
pub open spec fn render(
    v: Value,
    heap: Seq<Obj>,
    modules: Seq<ModuleState>,
    texts: Seq<(u64, Seq<char>)>,
    fuel: nat,
) -> Result<(Seq<char>, Seq<u64>), Fault>
    decreases fuel, 0nat,
{
    match v {
        Value::Str(s) => Ok((s, Seq::empty())),
        Value::Int(i) => Ok((int_decimal(i as int), Seq::empty())),
        Value::Real(bits) => match text_of(texts, bits) {
            Some(t) => Ok((t, Seq::empty())),
            None => Ok((Seq::empty(), seq![bits])),
        },
        Value::Bool(b) => Ok(
            (
                if b {
                    "verdadeiro"@
                } else {
                    "falso"@
                },
                Seq::empty(),
            ),
        ),
        Value::Nulo => Ok(("nulo"@, Seq::empty())),
        Value::Vector(r) => match heap_vector(heap, r) {
            None => Err(Fault::DanglingRef),
            Some(items) => if fuel == 0 {
                Err(Fault::CyclicValue)
            } else {
                match render_list(items, ", "@, heap, modules, texts, (fuel - 1) as nat) {
                    Ok((t, m)) => Ok(("["@ + t + "]"@, m)),
                    Err(f) => Err(f),
                }
            },
        },
        Value::RegObj(r) => match heap_regobj(heap, r) {
            None => Err(Fault::DanglingRef),
            Some(obj) => match spec_schema_name(modules, obj.registo) {
                None => Err(Fault::DanglingRef),
                Some(name) => Ok(("<Instância do tipo "@ + name + ">"@, Seq::empty())),
            },
        },
        Value::Variant(tag, _) => Ok(("<Variante("@ + decimal(tag as nat) + ")>"@, Seq::empty())),
        _ => Err(Fault::Unprintable),
    }
}

/// The display forms of the items, in order, with `sep` between neighbours,
/// and the reals whose text is missing; or the reason why the first item
/// without a display form has none.
pub open spec fn render_list(
    items: Seq<Value>,
    sep: Seq<char>,
    heap: Seq<Obj>,
    modules: Seq<ModuleState>,
    texts: Seq<(u64, Seq<char>)>,
    fuel: nat,
) -> Result<(Seq<char>, Seq<u64>), Fault>
    decreases fuel, items.len(),
{
    if items.len() == 0 {
        Ok((Seq::empty(), Seq::empty()))
    } else {
        match render_list(items.drop_last(), sep, heap, modules, texts, fuel) {
            Err(f) => Err(f),
            Ok((t, m)) => match render(items.last(), heap, modules, texts, fuel) {
                Err(f) => Err(f),
                Ok((t2, m2)) => Ok(
                    (
                        t + (if items.len() > 1 {
                            sep
                        } else {
                            Seq::empty()
                        }) + t2,
                        m + m2,
                    ),
                ),
            },
        }
    }
}

/// Appends the display form of a value to `out` and the reals whose text is
/// missing to `missing`.
pub fn render_into(
    value: &AmaValue,
    alloc: &Alloc,
    modules: &Vec<Module>,
    texts: &Vec<RealText>,
    fuel: usize,
    out: &mut String,
    missing: &mut Vec<u64>,
) -> (r: Result<(), Fault>)
    ensures
        match render(
            value@,
            alloc@,
            modules_of(modules@),
            Seq::new(texts@.len(), |i: int| texts@[i]@),
            fuel as nat,
        ) {
            Ok((t, m)) => r is Ok && final(out)@ == old(out)@ + t && final(missing)@ == old(
                missing,
            )@ + m,
            Err(f) => r == Err::<(), Fault>(f),
        },
    decreases fuel, 0nat,
{
    match value {
        AmaValue::Str(s) => {
            out.append(s.as_str());
            assert(missing@ =~= old(missing)@ + Seq::<u64>::empty());
            Ok(())
        },
        AmaValue::Int(i) => {
            push_int(out, *i);
            assert(missing@ =~= old(missing)@ + Seq::<u64>::empty());
            Ok(())
        },
        AmaValue::Real(bits) => {
            match find_text(texts, *bits) {
                Some(t) => {
                    out.append(t.as_str());
                    assert(missing@ =~= old(missing)@ + Seq::<u64>::empty());
                },
                None => {
                    missing.push(*bits);
                    assert(out@ =~= old(out)@ + Seq::<char>::empty());
                    assert(missing@ =~= old(missing)@ + seq![*bits]);
                },
            }
            Ok(())
        },
        AmaValue::Bool(b) => {
            if *b {
                out.append("verdadeiro");
            } else {
                out.append("falso");
            }
            assert(missing@ =~= old(missing)@ + Seq::<u64>::empty());
            Ok(())
        },
        AmaValue::Nulo => {
            out.append("nulo");
            assert(missing@ =~= old(missing)@ + Seq::<u64>::empty());
            Ok(())
        },
        AmaValue::Vector(r) => {
            match alloc.vector(*r) {
                None => Err(Fault::DanglingRef),
                Some(items) => {
                    if fuel == 0 {
                        return Err(Fault::CyclicValue);
                    }
                    out.append("[");
                    match render_list_into(
                        items,
                        0,
                        ", ",
                        alloc,
                        modules,
                        texts,
                        fuel - 1,
                        out,
                        missing,
                    ) {
                        Ok(()) => {
                            out.append("]");
                            proof {
                                assert(values_of(items@).skip(0) =~= values_of(items@));
                                let t = render_list(
                                    values_of(items@),
                                    ", "@,
                                    alloc@,
                                    modules_of(modules@),
                                    Seq::new(texts@.len(), |i: int| texts@[i]@),
                                    (fuel - 1) as nat,
                                )->Ok_0.0;
                                assert(out@ =~= old(out)@ + ("["@ + t + "]"@));
                            }
                            Ok(())
                        },
                        Err(f) => {
                            proof {
                                assert(values_of(items@).skip(0) =~= values_of(items@));
                            }
                            Err(f)
                        },
                    }
                },
            }
        },
        AmaValue::RegObj(r) => {
            match alloc.regobj(*r) {
                None => Err(Fault::DanglingRef),
                Some(obj) => match obj.reg_name(modules) {
                    None => Err(Fault::DanglingRef),
                    Some(name) => {
                        out.append("<Instância do tipo ");
                        out.append(name);
                        out.append(">");
                        assert(out@ =~= old(out)@ + ("<Instância do tipo "@ + name@ + ">"@));
                        assert(missing@ =~= old(missing)@ + Seq::<u64>::empty());
                        Ok(())
                    },
                },
            }
        },
        AmaValue::Variant(tag, _) => {
            out.append("<Variante(");
            push_decimal(out, *tag);
            out.append(")>");
            assert(out@ =~= old(out)@ + ("<Variante("@ + decimal(*tag as nat) + ")>"@));
            assert(missing@ =~= old(missing)@ + Seq::<u64>::empty());
            Ok(())
        },
        _ => Err(Fault::Unprintable),
    }
}

/// Appends the display forms of `items[start..]` to `out`, with `sep`
/// between neighbours, and the reals whose text is missing to `missing`.
pub fn render_list_into(
    items: &Vec<AmaValue>,
    start: usize,
    sep: &str,
    alloc: &Alloc,
    modules: &Vec<Module>,
    texts: &Vec<RealText>,
    fuel: usize,
    out: &mut String,
    missing: &mut Vec<u64>,
) -> (r: Result<(), Fault>)
    requires
        start <= items.len(),
    ensures
        match render_list(
            values_of(items@).skip(start as int),
            sep@,
            alloc@,
            modules_of(modules@),
            Seq::new(texts@.len(), |i: int| texts@[i]@),
            fuel as nat,
        ) {
            Ok((t, m)) => r is Ok && final(out)@ == old(out)@ + t && final(missing)@ == old(
                missing,
            )@ + m,
            Err(f) => r == Err::<(), Fault>(f),
        },
    decreases fuel, 1nat,
{
    let ghost all = values_of(items@).skip(start as int);
    let ghost heap = alloc@;
    let ghost mods = modules_of(modules@);
    let ghost tx = Seq::new(texts@.len(), |i: int| texts@[i]@);
    let mut i: usize = start;
    proof {
        assert(all.take(0) =~= Seq::<Value>::empty());
        assert(out@ =~= old(out)@ + Seq::<char>::empty());
        assert(missing@ =~= old(missing)@ + Seq::<u64>::empty());
    }
    while i < items.len()
        invariant
            start <= i <= items.len(),
            all == values_of(items@).skip(start as int),
            heap == alloc@,
            mods == modules_of(modules@),
            tx == Seq::new(texts@.len(), |i: int| texts@[i]@),
            render_list(all.take(i - start), sep@, heap, mods, tx, fuel as nat) is Ok,
            out@ == old(out)@ + render_list(
                all.take(i - start),
                sep@,
                heap,
                mods,
                tx,
                fuel as nat,
            )->Ok_0.0,
            missing@ == old(missing)@ + render_list(
                all.take(i - start),
                sep@,
                heap,
                mods,
                tx,
                fuel as nat,
            )->Ok_0.1,
        decreases items.len() - i,
    {
        let ghost before = all.take(i - start);
        let ghost next = all.take(i - start + 1);
        proof {
            assert(next.drop_last() =~= before);
            assert(next.last() == items@[i as int]@);
            lemma_prefix_fails(next, all, sep@, heap, mods, tx, fuel as nat);
        }
        if i > start {
            out.append(sep);
        }
        match render_into(&items[i], alloc, modules, texts, fuel, out, missing) {
            Ok(()) => {
                proof {
                    let prev = render_list(before, sep@, heap, mods, tx, fuel as nat)->Ok_0;
                    let this = render(items@[i as int]@, heap, mods, tx, fuel as nat)->Ok_0;
                    assert(out@ =~= old(out)@ + (prev.0 + (if next.len() > 1 {
                        sep@
                    } else {
                        Seq::empty()
                    }) + this.0));
                    assert(missing@ =~= old(missing)@ + (prev.1 + this.1));
                }
            },
            Err(f) => {
                return Err(f);
            },
        }
        i += 1;
    }
    proof {
        assert(all.take(i - start) =~= all);
    }
    Ok(())
}

/// If the display of a prefix of a list fails, the display of the list fails
/// in the same way.
pub proof fn lemma_prefix_fails(
    prefix: Seq<Value>,
    all: Seq<Value>,
    sep: Seq<char>,
    heap: Seq<Obj>,
    modules: Seq<ModuleState>,
    texts: Seq<(u64, Seq<char>)>,
    fuel: nat,
)
    requires
        prefix.len() <= all.len(),
        prefix == all.take(prefix.len() as int),
    ensures
        render_list(prefix, sep, heap, modules, texts, fuel) is Err ==> render_list(
            all,
            sep,
            heap,
            modules,
            texts,
            fuel,
        ) == render_list(prefix, sep, heap, modules, texts, fuel),
    decreases all.len() - prefix.len(),
{
    if prefix.len() < all.len() {
        let longer = all.take(prefix.len() as int + 1);
        assert(longer.drop_last() =~= prefix);
        lemma_prefix_fails(longer, all, sep, heap, modules, texts, fuel);
    } else {
        assert(prefix =~= all);
    }
}

/// What the display of a value gives.
#[derive(Debug)]
pub enum Shown {
    /// The display form.
    Text(String),
    /// The reals that the host has to write first.
    Missing(Vec<u64>),
    /// The reason why there is no display form.
    Fault(Fault),
}

/// The mathematical model of [`Shown`].
pub enum ShownView {
    Text(Seq<char>),
    Missing(Seq<u64>),
    Fault(Fault),
}

impl View for Shown {
    type V = ShownView;

    open spec fn view(&self) -> ShownView {
        match self {
            Shown::Text(t) => ShownView::Text(t@),
            Shown::Missing(m) => ShownView::Missing(m@),
            Shown::Fault(f) => ShownView::Fault(*f),
        }
    }
}

/// What the result of a rendering means for the caller: the text where no
/// real is missing; the missing reals where the host has not been asked yet;
/// a fault where the host's reply leaves reals out.
pub open spec fn shown(
    rendered: Result<(Seq<char>, Seq<u64>), Fault>,
    reply: ReplyView,
) -> ShownView {
    match rendered {
        Err(f) => ShownView::Fault(f),
        Ok((t, m)) => if m.len() == 0 {
            ShownView::Text(t)
        } else if reply is Nothing {
            ShownView::Missing(m)
        } else {
            ShownView::Fault(Fault::BadReply)
        },
    }
}

/// The display form of a value, given the host's reply.
pub open spec fn display_spec(
    v: Value,
    heap: Seq<Obj>,
    modules: Seq<ModuleState>,
    reply: ReplyView,
) -> ShownView {
    shown(render(v, heap, modules, reply_texts(reply), heap.len()), reply)
}

/// The display forms of the values one after the other, given the host's
/// reply.
pub open spec fn display_all_spec(
    vs: Seq<Value>,
    heap: Seq<Obj>,
    modules: Seq<ModuleState>,
    reply: ReplyView,
) -> ShownView {
    shown(render_list(vs, Seq::empty(), heap, modules, reply_texts(reply), heap.len()), reply)
}

fn finish(r: Result<(), Fault>, out: String, missing: Vec<u64>, reply: &Reply) -> (s: Shown)
    ensures
        r is Ok ==> s@ == shown(
            Ok::<(Seq<char>, Seq<u64>), Fault>((out@, missing@)),
            reply@,
        ),
        r matches Err(f) ==> s@ == ShownView::Fault(f),
{
    match r {
        Err(f) => Shown::Fault(f),
        Ok(()) => {
            if missing.len() == 0 {
                Shown::Text(out)
            } else {
                match reply {
                    Reply::Nothing => Shown::Missing(missing),
                    _ => Shown::Fault(Fault::BadReply),
                }
            }
        },
    }
}

/// The display form of a value.
pub fn display(value: &AmaValue, alloc: &Alloc, modules: &Vec<Module>, reply: &Reply) -> (s: Shown)
    ensures
        s@ == display_spec(value@, alloc@, modules_of(modules@), reply@),
{
    let mut out = String::new();
    let mut missing: Vec<u64> = Vec::new();
    let none: Vec<RealText> = Vec::new();
    let r = match reply {
        Reply::Texts(texts) => render_into(
            value,
            alloc,
            modules,
            texts,
            alloc.len(),
            &mut out,
            &mut missing,
        ),
        _ => {
            assert(Seq::new(none@.len(), |i: int| none@[i]@) =~= reply_texts(reply@));
            render_into(value, alloc, modules, &none, alloc.len(), &mut out, &mut missing)
        },
    };
    proof {
        match render(value@, alloc@, modules_of(modules@), reply_texts(reply@), alloc@.len()) {
            Ok((t, m)) => {
                assert(out@ =~= t);
                assert(missing@ =~= m);
            },
            Err(_) => {},
        }
    }
    finish(r, out, missing, reply)
}

/// The display forms of `values[start..]` one after the other.
pub fn display_all(
    values: &Vec<AmaValue>,
    start: usize,
    alloc: &Alloc,
    modules: &Vec<Module>,
    reply: &Reply,
) -> (s: Shown)
    requires
        start <= values.len(),
    ensures
        s@ == display_all_spec(
            values_of(values@).skip(start as int),
            alloc@,
            modules_of(modules@),
            reply@,
        ),
{
    let mut out = String::new();
    let mut missing: Vec<u64> = Vec::new();
    let none: Vec<RealText> = Vec::new();
    proof {
        reveal_strlit("");
        assert(""@ =~= Seq::<char>::empty());
    }
    let r = match reply {
        Reply::Texts(texts) => render_list_into(
            values,
            start,
            "",
            alloc,
            modules,
            texts,
            alloc.len(),
            &mut out,
            &mut missing,
        ),
        _ => {
            assert(Seq::new(none@.len(), |i: int| none@[i]@) =~= reply_texts(reply@));
            render_list_into(
                values,
                start,
                "",
                alloc,
                modules,
                &none,
                alloc.len(),
                &mut out,
                &mut missing,
            )
        },
    };
    proof {
        match render_list(
            values_of(values@).skip(start as int),
            Seq::empty(),
            alloc@,
            modules_of(modules@),
            reply_texts(reply@),
            alloc@.len(),
        ) {
            Ok((t, m)) => {
                assert(out@ =~= t);
                assert(missing@ =~= m);
            },
            Err(_) => {},
        }
    }
    finish(r, out, missing, reply)
}

} // verus!
