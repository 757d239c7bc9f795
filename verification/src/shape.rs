use vstd::prelude::*;

verus! {

/// The shape of a matrix flowing between layers: `rows` token rows, each a
/// vector of `cols` entries.
#[derive(Clone, Copy, Debug, PartialEq, Eq, Structural)]
pub struct Shape {
    pub rows: usize,
    pub cols: usize,
}

impl Shape {
    /// How many entries a matrix of this shape holds once flattened row by
    /// row into a single vector.
    pub open spec fn flat_len(self) -> int {
        self.rows * self.cols
    }
}

/// The position of entry `(row, col)` once a matrix is flattened row by row.
pub open spec fn spec_flat_index(row: int, col: int, cols: int) -> int {
    row * cols + col
}

/// Flattening stays within the flattened length.
pub proof fn lemma_flat_index_in_range(row: int, col: int, shape: Shape)
    requires
        0 <= row < shape.rows,
        0 <= col < shape.cols,
    ensures
        0 <= spec_flat_index(row, col, shape.cols as int) < shape.flat_len(),
{
    assert(row * shape.cols + col < shape.rows * shape.cols) by (nonlinear_arith)
        requires
            0 <= row < shape.rows,
            0 <= col < shape.cols,
    ;
}

/// Flattening loses nothing: two distinct positions never land on the same
/// flattened index.
pub proof fn lemma_flat_index_injective(r1: int, c1: int, r2: int, c2: int, cols: int)
    requires
        0 <= c1 < cols,
        0 <= c2 < cols,
        0 <= r1,
        0 <= r2,
        spec_flat_index(r1, c1, cols) == spec_flat_index(r2, c2, cols),
    ensures
        r1 == r2,
        c1 == c2,
{
    assert(r1 == r2 && c1 == c2) by (nonlinear_arith)
        requires
            0 <= c1 < cols,
            0 <= c2 < cols,
            0 <= r1,
            0 <= r2,
            r1 * cols + c1 == r2 * cols + c2,
    ;
}

/// The flattened position of entry `(row, col)` of a matrix of shape `shape`.
pub fn flat_index(row: usize, col: usize, shape: Shape) -> (r: usize)
    requires
        row < shape.rows,
        col < shape.cols,
        shape.flat_len() <= usize::MAX,
    ensures
        r == spec_flat_index(row as int, col as int, shape.cols as int),
        r < shape.flat_len(),
{
    proof {
        lemma_flat_index_in_range(row as int, col as int, shape);
    }
    row * shape.cols + col
}

/// The matrix position a flattened index came from: flattening and
/// unflattening are inverse to each other.
pub fn unflat_index(idx: usize, shape: Shape) -> (r: (usize, usize))
    requires
        shape.cols >= 1,
        idx < shape.flat_len(),
    ensures
        r.0 < shape.rows,
        r.1 < shape.cols,
        spec_flat_index(r.0 as int, r.1 as int, shape.cols as int) == idx,
{
    let row = idx / shape.cols;
    let col = idx % shape.cols;
    proof {
        assert(row == idx as int / shape.cols as int);
        assert(col == idx as int % shape.cols as int);
        assert(row * shape.cols + col == idx && row < shape.rows) by (nonlinear_arith)
            requires
                shape.cols >= 1,
                0 <= idx < shape.rows * shape.cols,
                row == idx as int / shape.cols as int,
                col == idx as int % shape.cols as int,
        ;
    }
    (row, col)
}

/// Where entry `(row, col)` of the output of head number `head` lands in the
/// concatenation of all head outputs.
pub open spec fn spec_head_index(head: int, row: int, col: int, shape: Shape) -> int {
    head * shape.flat_len() + spec_flat_index(row, col, shape.cols as int)
}

/// Each head's flattened output occupies its own slice of the concatenation:
/// slice `head` is exactly the half-open range starting at `head` times the
/// flattened length.
pub proof fn lemma_head_index_slice(head: int, row: int, col: int, shape: Shape)
    requires
        0 <= head,
        0 <= row < shape.rows,
        0 <= col < shape.cols,
    ensures
        head * shape.flat_len() <= spec_head_index(head, row, col, shape) < (head + 1)
            * shape.flat_len(),
{
    lemma_flat_index_in_range(row, col, shape);
    assert((head + 1) * shape.flat_len() == head * shape.flat_len() + shape.flat_len())
        by (nonlinear_arith);
}

/// Concatenating the heads loses nothing: two distinct entries, in the same
/// head or in different heads, never land on the same concatenated index.
pub proof fn lemma_head_index_injective(
    h1: int,
    r1: int,
    c1: int,
    h2: int,
    r2: int,
    c2: int,
    shape: Shape,
)
    requires
        0 <= h1,
        0 <= h2,
        0 <= r1 < shape.rows,
        0 <= r2 < shape.rows,
        0 <= c1 < shape.cols,
        0 <= c2 < shape.cols,
        spec_head_index(h1, r1, c1, shape) == spec_head_index(h2, r2, c2, shape),
    ensures
        h1 == h2,
        r1 == r2,
        c1 == c2,
{
    lemma_head_index_slice(h1, r1, c1, shape);
    lemma_head_index_slice(h2, r2, c2, shape);
    assert(h1 == h2) by {
        if h1 < h2 {
            assert((h1 + 1) * shape.flat_len() <= h2 * shape.flat_len()) by (nonlinear_arith)
                requires
                    h1 + 1 <= h2,
                    shape.flat_len() >= 0,
            ;
        }
        if h2 < h1 {
            assert((h2 + 1) * shape.flat_len() <= h1 * shape.flat_len()) by (nonlinear_arith)
                requires
                    h2 + 1 <= h1,
                    shape.flat_len() >= 0,
            ;
        }
    }
    lemma_flat_index_injective(r1, c1, r2, c2, shape.cols as int);
}

/// The concatenated position of entry `(row, col)` of head number `head`, for
/// a multi-head block of `num_heads` heads over matrices of shape `shape`.
pub fn head_index(head: usize, row: usize, col: usize, shape: Shape, num_heads: usize) -> (r:
    usize)
    requires
        head < num_heads,
        row < shape.rows,
        col < shape.cols,
        num_heads * shape.flat_len() <= usize::MAX,
    ensures
        r == spec_head_index(head as int, row as int, col as int, shape),
        r < num_heads * shape.flat_len(),
{
    proof {
        lemma_head_index_slice(head as int, row as int, col as int, shape);
        assert((head + 1) * shape.flat_len() <= num_heads * shape.flat_len()) by (nonlinear_arith)
            requires
                head + 1 <= num_heads,
                shape.flat_len() >= 0,
        ;
        assert(shape.flat_len() <= usize::MAX) by (nonlinear_arith)
            requires
                num_heads * shape.flat_len() <= usize::MAX,
                1 <= num_heads,
                0 <= shape.flat_len(),
        ;
        lemma_flat_index_in_range(row as int, col as int, shape);
    }
    let flat: usize = shape.rows * shape.cols;
    head * flat + row * shape.cols + col
}

/// Everything about a model's dimensions that construction fixes once and
/// for all: the sequence length, the embedding width, how many encoder
/// layers and attention heads there are, the hidden feed-forward width, and
/// the derived flattened and concatenated lengths.
#[derive(Clone, Copy, Debug, PartialEq, Eq, Structural)]
pub struct ModelPlan {
    /// Sequence length: rows of the sequence matrix.
    pub num_words: usize,
    /// Embedding width: columns of the sequence matrix.
    pub dimensionality: usize,
    /// How many encoder layers are stacked.
    pub num_encoders: usize,
    /// How many attention heads each multi-head block runs.
    pub num_heads: usize,
    /// Width of the hidden transition of each encoder's feed-forward block.
    pub hidden_layer_size: usize,
    /// Length of a flattened sequence matrix: `num_words * dimensionality`.
    pub flat_size: usize,
    /// Length of the concatenation of all head outputs:
    /// `num_heads * flat_size`.
    pub concat_size: usize,
}

/// A configuration is valid when every dimension is at least one.
pub open spec fn valid_config(
    num_words: usize,
    dimensionality: usize,
    num_encoders: usize,
    num_heads: usize,
    hidden_layer_size: usize,
) -> bool {
    &&& num_words >= 1
    &&& dimensionality >= 1
    &&& num_encoders >= 1
    &&& num_heads >= 1
    &&& hidden_layer_size >= 1
}

impl ModelPlan {
    /// A well-formed plan has a valid configuration and derived sizes that
    /// are exactly the products they stand for.
    pub open spec fn wf(self) -> bool {
        &&& valid_config(
            self.num_words,
            self.dimensionality,
            self.num_encoders,
            self.num_heads,
            self.hidden_layer_size,
        )
        &&& self.flat_size == self.num_words * self.dimensionality
        &&& self.concat_size == self.num_heads * self.flat_size
    }

    /// The shape of the matrix flowing between the model's layers.
    pub open spec fn seq_shape(self) -> Shape {
        Shape { rows: self.num_words, cols: self.dimensionality }
    }

    /// Transition widths of each encoder's position-wise feed-forward block:
    /// flattened sequence in, hidden width, flattened sequence out.
    pub open spec fn encoder_ff_sizes(self) -> Seq<usize> {
        seq![self.flat_size, self.hidden_layer_size, self.flat_size]
    }

    /// Transition widths of the linear projection that takes the multi-head
    /// concatenation back to the model width.
    pub open spec fn multi_head_linear_sizes(self) -> Seq<usize> {
        seq![self.concat_size, self.flat_size]
    }

    /// Transition widths of the classification head: one pooled row in, one
    /// sigmoid-activated score out.
    pub open spec fn classifier_sizes(self) -> Seq<usize> {
        seq![self.dimensionality, 1usize]
    }

    /// Fix a model's dimensions.  Every dimension must be at least one and
    /// the concatenation of all head outputs must be addressable, else
    /// nothing is returned.
    pub fn new(
        num_words: usize,
        dimensionality: usize,
        num_encoders: usize,
        num_heads: usize,
        hidden_layer_size: usize,
    ) -> (r: Option<ModelPlan>)
        ensures
            valid_config(num_words, dimensionality, num_encoders, num_heads, hidden_layer_size)
                && num_words * dimensionality * num_heads <= usize::MAX ==> {
                &&& r is Some
                &&& r->Some_0.wf()
                &&& r->Some_0.num_words == num_words
                &&& r->Some_0.dimensionality == dimensionality
                &&& r->Some_0.num_encoders == num_encoders
                &&& r->Some_0.num_heads == num_heads
                &&& r->Some_0.hidden_layer_size == hidden_layer_size
            },
            !valid_config(num_words, dimensionality, num_encoders, num_heads, hidden_layer_size)
                ==> r is None,
            num_words * dimensionality * num_heads > usize::MAX ==> r is None,
    {
        if num_words < 1 || dimensionality < 1 || num_encoders < 1 || num_heads < 1
            || hidden_layer_size < 1 {
            return None;
        }
        let flat = match num_words.checked_mul(dimensionality) {
            Some(f) => f,
            None => {
                proof {
                    assert(num_words * dimensionality <= num_words * dimensionality * num_heads)
                        by (nonlinear_arith)
                        requires
                            num_heads >= 1,
                            num_words >= 0,
                            dimensionality >= 0,
                    ;
                }
                return None;
            },
        };
        let concat = match flat.checked_mul(num_heads) {
            Some(c) => c,
            None => {
                return None;
            },
        };
        proof {
            assert(flat * num_heads == num_heads * flat) by (nonlinear_arith);
        }
        Some(
            ModelPlan {
                num_words,
                dimensionality,
                num_encoders,
                num_heads,
                hidden_layer_size,
                flat_size: flat,
                concat_size: concat,
            },
        )
    }
}

/// Output length of a dense stack on an input of length `input_len`: the
/// stack carries a vector through every transition width in order, so the
/// input must enter at the first width and leaves at the last.
pub open spec fn dense_forward_len(sizes: Seq<usize>, input_len: usize) -> Option<usize> {
    if sizes.len() >= 2 && input_len == sizes[0] {
        Some(sizes.last())
    } else {
        None
    }
}

/// Gradient length out of a dense stack's backward pass: the gradient enters
/// shaped like the output and leaves shaped like the input.
pub open spec fn dense_backward_len(sizes: Seq<usize>, gradient_len: usize) -> Option<usize> {
    if sizes.len() >= 2 && gradient_len == sizes.last() {
        Some(sizes[0])
    } else {
        None
    }
}

/// Positional encoding adds a fixed signal entry by entry: the output is
/// shaped like the input.
pub open spec fn positional_encoder_forward(input: Shape) -> Shape {
    input
}

/// Backward of positional encoding is the identity on gradients.
pub open spec fn positional_encoder_backward(gradient: Shape) -> Shape {
    gradient
}

/// Self-attention emits one context row per input row, each of the input
/// width: the output is shaped like the input.
pub open spec fn self_attention_forward(input: Shape) -> Shape {
    input
}

/// The attention weight matrix pairs every row with every row.
pub open spec fn attention_weights_shape(input: Shape) -> Shape {
    Shape { rows: input.rows, cols: input.rows }
}

/// Backward of self-attention hands each input row the gradient accumulated
/// from all output rows: the gradient out is shaped like the gradient in.
pub open spec fn self_attention_backward(gradient: Shape) -> Shape {
    gradient
}

/// Residual-add with row normalization sums two same-shaped matrices; on a
/// shape mismatch there is nothing to sum.
pub open spec fn add_norm_forward(original: Shape, modified: Shape) -> Option<Shape> {
    if original == modified {
        Some(original)
    } else {
        None
    }
}

/// Backward of residual-add hands the same row-normalization gradient to
/// both addends.
pub open spec fn add_norm_backward(gradient: Shape) -> (Shape, Shape) {
    (gradient, gradient)
}

/// Mean pooling averages the rows into a single vector of the input width.
pub open spec fn mean_pooling_forward(input: Shape) -> usize {
    input.cols
}

/// Backward of mean pooling spreads the pooled gradient evenly over every
/// row of the stored input shape.
pub open spec fn mean_pooling_backward(input: Shape, gradient_len: usize) -> Shape {
    Shape { rows: input.rows, cols: gradient_len }
}

/// Shape of the multi-head attention output: every head preserves the input
/// shape, the flattened concatenation must enter the linear projection at its
/// first width, and the projection's output must flatten back to the input
/// shape; else the block does not fit together.
pub open spec fn multi_head_forward(plan: ModelPlan, input: Shape) -> Option<Shape> {
    if input == plan.seq_shape() && plan.concat_size == plan.num_heads * input.flat_len() {
        match dense_forward_len(plan.multi_head_linear_sizes(), plan.concat_size) {
            Some(out_len) => {
                if out_len == input.flat_len() {
                    Some(input)
                } else {
                    None
                }
            },
            None => None,
        }
    } else {
        None
    }
}

/// Shape of the multi-head attention backward result: the gradient runs back
/// through the projection, is split head by head, and the heads' input
/// gradients are summed into one matrix of the block's input shape.
pub open spec fn multi_head_backward(plan: ModelPlan, gradient: Shape) -> Option<Shape> {
    if gradient == plan.seq_shape() {
        match dense_backward_len(plan.multi_head_linear_sizes(), plan.flat_size) {
            Some(back_len) => {
                if back_len == plan.num_heads * gradient.flat_len() {
                    Some(gradient)
                } else {
                    None
                }
            },
            None => None,
        }
    } else {
        None
    }
}

/// Shape of one encoder layer's output: multi-head attention, residual
/// normalization, the position-wise feed-forward stack on the flattened
/// matrix, and a second residual normalization, each handing the next
/// exactly the shape it expects.
pub open spec fn encoder_block_forward(plan: ModelPlan, input: Shape) -> Option<Shape> {
    match multi_head_forward(plan, input) {
        Some(attn) => match add_norm_forward(input, attn) {
            Some(normed) => match dense_forward_len(
                plan.encoder_ff_sizes(),
                (normed.rows * normed.cols) as usize,
            ) {
                Some(ff_len) => {
                    if ff_len == normed.flat_len() {
                        add_norm_forward(normed, normed)
                    } else {
                        None
                    }
                },
                None => None,
            },
            None => None,
        },
        None => None,
    }
}

/// Shape of one encoder layer's backward result, walking the forward
/// composition in exact reverse and summing the residual branches.
pub open spec fn encoder_block_backward(plan: ModelPlan, gradient: Shape) -> Option<Shape> {
    let (residual2, ff_grad) = add_norm_backward(gradient);
    match dense_backward_len(plan.encoder_ff_sizes(), (ff_grad.rows * ff_grad.cols) as usize) {
        Some(back_len) => {
            if back_len == residual2.flat_len() {
                let (residual1, attn_grad) = add_norm_backward(residual2);
                match multi_head_backward(plan, attn_grad) {
                    Some(head_grad) => {
                        if head_grad == residual1 {
                            Some(head_grad)
                        } else {
                            None
                        }
                    },
                    None => None,
                }
            } else {
                None
            }
        },
        None => None,
    }
}

/// Shape invariant of one encoder layer: on a well-formed plan the layer
/// accepts the sequence shape and produces it again, and its backward pass
/// returns a gradient of exactly that forward input shape.
pub proof fn lemma_encoder_block_shape(plan: ModelPlan)
    requires
        plan.wf(),
    ensures
        encoder_block_forward(plan, plan.seq_shape()) == Some(plan.seq_shape()),
        encoder_block_backward(plan, plan.seq_shape()) == Some(plan.seq_shape()),
{
}

/// Shape invariant of multi-head attention: on a well-formed plan the block
/// preserves the sequence shape, and its backward pass returns a gradient of
/// exactly the forward input shape.
pub proof fn lemma_multi_head_shape(plan: ModelPlan)
    requires
        plan.wf(),
    ensures
        multi_head_forward(plan, plan.seq_shape()) == Some(plan.seq_shape()),
        multi_head_backward(plan, plan.seq_shape()) == Some(plan.seq_shape()),
{
}

/// Shape invariant of the parameter-free layers: positional encoding and
/// self-attention preserve any input shape, residual normalization preserves
/// any pair of equal shapes, and each backward pass returns a gradient of
/// exactly the forward input shape.
pub proof fn lemma_simple_layer_shapes(input: Shape)
    ensures
        positional_encoder_forward(input) == input,
        positional_encoder_backward(positional_encoder_forward(input)) == input,
        self_attention_forward(input) == input,
        self_attention_backward(self_attention_forward(input)) == input,
        add_norm_forward(input, input) == Some(input),
        add_norm_backward(input) == (input, input),
        mean_pooling_backward(input, mean_pooling_forward(input)) == input,
{
}

/// Shape invariant of the whole model: on a well-formed plan the encoder
/// stack preserves the sequence shape through every layer, mean pooling
/// yields one row of the embedding width, and the classification head takes
/// that row to a single score; the backward chain returns through the same
/// shapes in exact reverse.
pub proof fn lemma_model_shape(plan: ModelPlan)
    requires
        plan.wf(),
    ensures
        encoder_block_forward(plan, plan.seq_shape()) == Some(plan.seq_shape()),
        mean_pooling_forward(plan.seq_shape()) == plan.dimensionality,
        dense_forward_len(plan.classifier_sizes(), plan.dimensionality) == Some(1usize),
        dense_backward_len(plan.classifier_sizes(), 1usize) == Some(plan.dimensionality),
        mean_pooling_backward(plan.seq_shape(), plan.dimensionality) == plan.seq_shape(),
        encoder_block_backward(plan, plan.seq_shape()) == Some(plan.seq_shape()),
{
}

} // verus!
