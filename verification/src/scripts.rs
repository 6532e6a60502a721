//! What the scripts of a scan reported, by script.

use crate::text::same;
use vstd::prelude::*;

verus! {

/// One named value that a script reported.
#[derive(Debug)]
pub struct ScriptElement {
    pub key: String,
    pub value: String,
}

/// The contents of a [`ScriptElement`].
#[verifier::ext_equal]
pub struct ScriptElementView {
    pub key: Seq<char>,
    pub value: Seq<char>,
}

impl View for ScriptElement {
    type V = ScriptElementView;

    open spec fn view(&self) -> ScriptElementView {
        ScriptElementView { key: self.key@, value: self.value@ }
    }
}

impl DeepView for ScriptElement {
    type V = ScriptElementView;

    open spec fn deep_view(&self) -> ScriptElementView {
        self@
    }
}

impl Clone for ScriptElement {
    fn clone(&self) -> (result: Self)
        ensures
            result == *self,
    {
        ScriptElement { key: self.key.clone(), value: self.value.clone() }
    }
}

/// The output of one script.
#[derive(Debug)]
pub struct ScriptOutput {
    pub id: String,
    pub elements: Vec<ScriptElement>,
}

impl Clone for ScriptOutput {
    fn clone(&self) -> (result: Self)
        ensures
            result.id == self.id,
            result.elements@ == self.elements@,
    {
        let elements = self.elements.clone();
        assert(elements@ =~= self.elements@);
        ScriptOutput { id: self.id.clone(), elements }
    }
}

/// The outputs of any number of scripts, each script once.
#[derive(Debug)]
pub struct Scripts {
    outputs: Vec<ScriptOutput>,
}

/// The output at position `i` is that of the script `id`.
pub open spec fn output_of(outputs: Seq<ScriptOutput>, i: int, id: Seq<char>) -> bool {
    0 <= i < outputs.len() && outputs[i].id@ == id
}

/// No script occurs twice.
pub open spec fn distinct(outputs: Seq<ScriptOutput>) -> bool {
    forall|i: int, j: int, id: Seq<char>|
        #[trigger] output_of(outputs, i, id) && #[trigger] output_of(outputs, j, id) ==> i == j
}

/// What each script in `outputs` reported.
pub open spec fn by_script(outputs: Seq<ScriptOutput>) -> Map<Seq<char>, Seq<ScriptElementView>> {
    Map::new(
        |id: Seq<char>| exists|i: int| output_of(outputs, i, id),
        |id: Seq<char>|
            outputs[choose|i: int| output_of(outputs, i, id)].elements.deep_view(),
    )
}

impl View for Scripts {
    type V = Map<Seq<char>, Seq<ScriptElementView>>;

    closed spec fn view(&self) -> Map<Seq<char>, Seq<ScriptElementView>> {
        by_script(self.outputs@)
    }
}

/// The elements of the script `id`, none if it reported nothing.
pub open spec fn elements_of(
    scripts: Map<Seq<char>, Seq<ScriptElementView>>,
    id: Seq<char>,
) -> Seq<ScriptElementView> {
    if scripts.contains_key(id) {
        scripts[id]
    } else {
        seq![]
    }
}

/// `scripts` after the script `id` reported one more element.
pub open spec fn with_element(
    scripts: Map<Seq<char>, Seq<ScriptElementView>>,
    id: Seq<char>,
    element: ScriptElementView,
) -> Map<Seq<char>, Seq<ScriptElementView>> {
    scripts.insert(id, elements_of(scripts, id).push(element))
}

/// The output of a script that occurs is what `by_script` gives for it.
proof fn lemma_by_script(outputs: Seq<ScriptOutput>, i: int)
    requires
        distinct(outputs),
        0 <= i < outputs.len(),
    ensures
        by_script(outputs).contains_key(outputs[i].id@),
        by_script(outputs)[outputs[i].id@] == outputs[i].elements.deep_view(),
{
    assert(output_of(outputs, i, outputs[i].id@));
}

impl Scripts {
    #[verifier::type_invariant]
    spec fn well_formed(self) -> bool {
        distinct(self.outputs@)
    }

    /// No output of any script.
    pub fn new() -> (result: Self)
        ensures
            result@ == Map::<Seq<char>, Seq<ScriptElementView>>::empty(),
    {
        let result = Scripts { outputs: Vec::new() };
        assert(result@ =~= Map::<Seq<char>, Seq<ScriptElementView>>::empty());
        result
    }

    /// The outputs, one for each script that reported something.
    pub fn outputs(&self) -> (result: &Vec<ScriptOutput>)
        ensures
            distinct(result@),
            by_script(result@) == self@,
    {
        proof {
            use_type_invariant(self);
        }
        &self.outputs
    }

    /// What the script `id` reported.
    pub fn get(&self, id: &str) -> (result: Option<&Vec<ScriptElement>>)
        ensures
            result is Some <==> self@.contains_key(id@),
            result matches Some(elements) ==> elements.deep_view() == self@[id@],
    {
        proof {
            use_type_invariant(self);
        }
        match find(&self.outputs, id) {
            Some(i) => {
                proof {
                    lemma_by_script(self.outputs@, i as int);
                }
                Some(&self.outputs[i].elements)
            },
            None => None,
        }
    }

    /// Appends `element` to what the script `id` reported.
    pub fn add(&mut self, id: &str, element: ScriptElement)
        ensures
            final(self)@ == with_element(old(self)@, id@, element@),
    {
        proof {
            use_type_invariant(&*self);
        }
        let ghost before = self.outputs@;
        let ghost new_element = element@;
        let mut outputs: Vec<ScriptOutput> = Vec::new();
        std::mem::swap(&mut outputs, &mut self.outputs);
        match find(&outputs, id) {
            Some(i) => {
                let mut output = outputs.remove(i);
                let ghost old_elements = output.elements.deep_view();
                output.elements.push(element);
                assert(output.elements.deep_view() == old_elements.push(new_element));
                outputs.insert(i, output);
                proof {
                    let after = outputs@;
                    lemma_by_script(before, i as int);
                    assert forall|j: int, other: Seq<char>|
                        output_of(after, j, other) == output_of(before, j, other) by {}
                    assert forall|other: Seq<char>|
                        by_script(after).contains_key(other) == by_script(before).contains_key(
                            other,
                        ) by {
                        if by_script(before).contains_key(other) {
                            let j = choose|j: int| output_of(before, j, other);
                            assert(output_of(after, j, other));
                        }
                        if by_script(after).contains_key(other) {
                            let j = choose|j: int| output_of(after, j, other);
                            assert(output_of(before, j, other));
                        }
                    }
                    assert(distinct(after)) by {
                        assert forall|j: int, k: int, other: Seq<char>|
                            #[trigger] output_of(after, j, other) && #[trigger] output_of(
                                after,
                                k,
                                other,
                            ) implies j == k by {
                            assert(output_of(before, j, other) && output_of(before, k, other));
                        }
                    }
                    assert forall|other: Seq<char>| by_script(after).contains_key(other) implies (
                    #[trigger] by_script(after)[other]) == with_element(
                        by_script(before),
                        id@,
                        new_element,
                    )[other] by {
                        let j = choose|j: int| output_of(after, j, other);
                        lemma_by_script(after, j);
                        assert(output_of(before, j, other));
                        lemma_by_script(before, j);
                    }
                    assert(by_script(after) =~= with_element(by_script(before), id@, new_element));
                }
            },
            None => {
                let mut elements: Vec<ScriptElement> = Vec::new();
                elements.push(element);
                assert(elements.deep_view() == Seq::<ScriptElementView>::empty().push(new_element));
                let output = ScriptOutput { id: id.to_owned(), elements };
                outputs.push(output);
                proof {
                    let after = outputs@;
                    let last = before.len() as int;
                    assert(output_of(after, last, id@));
                    assert forall|j: int, other: Seq<char>|
                        j != last implies #[trigger] output_of(after, j, other) == output_of(
                        before,
                        j,
                        other,
                    ) by {}
                    assert(distinct(after)) by {
                        assert forall|j: int, k: int, other: Seq<char>|
                            #[trigger] output_of(after, j, other) && #[trigger] output_of(
                                after,
                                k,
                                other,
                            ) implies j == k by {
                            if j != last {
                                assert(output_of(before, j, other));
                            }
                            if k != last {
                                assert(output_of(before, k, other));
                            }
                        }
                    }
                    assert forall|other: Seq<char>|
                        #[trigger] by_script(after).contains_key(other) == (other == id@
                            || by_script(before).contains_key(other)) by {
                        if by_script(before).contains_key(other) {
                            let j = choose|j: int| output_of(before, j, other);
                            assert(output_of(after, j, other));
                        }
                        if by_script(after).contains_key(other) {
                            let j = choose|j: int| output_of(after, j, other);
                            if j != last {
                                assert(output_of(before, j, other));
                            }
                        }
                    }
                    assert forall|other: Seq<char>| by_script(after).contains_key(other) implies (
                    #[trigger] by_script(after)[other]) == with_element(
                        by_script(before),
                        id@,
                        new_element,
                    )[other] by {
                        let j = choose|j: int| output_of(after, j, other);
                        lemma_by_script(after, j);
                        if j != last {
                            assert(output_of(before, j, other));
                            lemma_by_script(before, j);
                        }
                    }
                    assert(by_script(after) =~= with_element(by_script(before), id@, new_element));
                }
            },
        }
        self.outputs = outputs;
    }
}

impl Clone for Scripts {
    fn clone(&self) -> (result: Self)
        ensures
            result@ == self@,
    {
        proof {
            use_type_invariant(self);
        }
        let outputs = self.outputs.clone();
        proof {
            let before = self.outputs@;
            let after = outputs@;
            assert forall|i: int, id: Seq<char>|
                #[trigger] output_of(after, i, id) == output_of(before, i, id) by {}
            assert(distinct(after));
            assert forall|id: Seq<char>|
                #[trigger] by_script(after).contains_key(id) == by_script(before).contains_key(
                    id,
                ) by {
                if by_script(before).contains_key(id) {
                    let i = choose|i: int| output_of(before, i, id);
                    assert(output_of(after, i, id));
                }
            }
            assert forall|id: Seq<char>| by_script(after).contains_key(id) implies (
            #[trigger] by_script(after)[id]) == by_script(before)[id] by {
                let i = choose|i: int| output_of(after, i, id);
                lemma_by_script(after, i);
                assert(output_of(before, i, id));
                lemma_by_script(before, i);
                assert(after[i].elements.deep_view() =~= before[i].elements.deep_view());
            }
            assert(by_script(after) =~= by_script(before));
        }
        Scripts { outputs }
    }
}

impl Default for Scripts {
    fn default() -> (result: Self)
        ensures
            result@ == Map::<Seq<char>, Seq<ScriptElementView>>::empty(),
    {
        Scripts::new()
    }
}

/// The position of the output of the script `id`.
fn find(outputs: &Vec<ScriptOutput>, id: &str) -> (result: Option<usize>)
    ensures
        result matches Some(i) ==> output_of(outputs@, i as int, id@),
        result is None ==> !by_script(outputs@).contains_key(id@),
{
    let mut i: usize = 0;
    while i < outputs.len()
        invariant
            i <= outputs.len(),
            forall|j: int| 0 <= j < i ==> !#[trigger] output_of(outputs@, j, id@),
        decreases outputs.len() - i,
    {
        if same(outputs[i].id.as_str(), id) {
            return Some(i);
        }
        i = i + 1;
    }
    None
}

/// One more element of a script comes after those that the script reported, and nothing changes of
/// the other scripts.
pub proof fn law_element_added(
    scripts: Map<Seq<char>, Seq<ScriptElementView>>,
    id: Seq<char>,
    element: ScriptElementView,
    other: Seq<char>,
)
    ensures
        ({
            let after = with_element(scripts, id, element);
            &&& after.dom() == scripts.dom().insert(id)
            &&& after[id].len() > 0
            &&& after[id].last() == element
            &&& scripts.contains_key(id) ==> after[id].len() == scripts[id].len() + 1
                && after[id].drop_last() == scripts[id]
            &&& !scripts.contains_key(id) ==> after[id].len() == 1
            &&& other != id && scripts.contains_key(other) ==> after[other] == scripts[other]
        }),
{
    let after = with_element(scripts, id, element);
    assert(after.dom() =~= scripts.dom().insert(id));
    if scripts.contains_key(id) {
        assert(after[id].drop_last() =~= scripts[id]);
    }
}

/// A script has reported something exactly if an output of it is kept, and what it reported is all
/// of this output.
pub proof fn law_outputs_by_script(outputs: Seq<ScriptOutput>, i: int, id: Seq<char>)
    requires
        forall|j: int, k: int|
            0 <= j < k < outputs.len() ==> (#[trigger] outputs[j]).id@ != (
            #[trigger] outputs[k]).id@,
        0 <= i < outputs.len(),
    ensures
        by_script(outputs).contains_key(id) <==> exists|j: int|
            0 <= j < outputs.len() && (#[trigger] outputs[j]).id@ == id,
        by_script(outputs)[outputs[i].id@].len() == outputs[i].elements@.len(),
        forall|j: int|
            0 <= j < outputs[i].elements@.len() ==> #[trigger] by_script(
                outputs,
            )[outputs[i].id@][j] == (ScriptElementView {
                key: outputs[i].elements@[j].key@,
                value: outputs[i].elements@[j].value@,
            }),
{
    assert(distinct(outputs)) by {
        assert forall|j: int, k: int, other: Seq<char>|
            #[trigger] output_of(outputs, j, other) && #[trigger] output_of(
                outputs,
                k,
                other,
            ) implies j == k by {
            if j < k {
                assert(outputs[j].id@ != outputs[k].id@);
            }
            if k < j {
                assert(outputs[k].id@ != outputs[j].id@);
            }
        }
    }
    lemma_by_script(outputs, i);
    if exists|j: int| 0 <= j < outputs.len() && (#[trigger] outputs[j]).id@ == id {
        let j = choose|j: int| 0 <= j < outputs.len() && (#[trigger] outputs[j]).id@ == id;
        assert(output_of(outputs, j, id));
    }
    if by_script(outputs).contains_key(id) {
        let j = choose|j: int| output_of(outputs, j, id);
        assert(outputs[j].id@ == id);
    }
}

/// The elements of a script are those that are kept for it, none if nothing is.
pub proof fn law_elements(scripts: Map<Seq<char>, Seq<ScriptElementView>>, id: Seq<char>)
    ensures
        scripts.contains_key(id) ==> elements_of(scripts, id) == scripts[id],
        !scripts.contains_key(id) ==> elements_of(scripts, id).len() == 0,
{
}

} // verus!
